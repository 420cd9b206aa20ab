//! Reading unsigned decimal numbers, as `str::parse::<usize>` does.
use vstd::prelude::*;

verus! {

pub open spec fn is_digit(c: char) -> bool {
    '0' <= c && c <= '9'
}

pub open spec fn digit_value(c: char) -> int {
    c as int - '0' as int
}

/// The value of a string of decimal digits, most significant first.
pub open spec fn digits_value(s: Seq<char>) -> int
    decreases s.len(),
{
    if s.len() == 0 {
        0
    } else {
        digits_value(s.drop_last()) * 10 + digit_value(s.last())
    }
}

pub open spec fn all_digits(s: Seq<char>) -> bool {
    forall|i: int| 0 <= i < s.len() ==> is_digit(#[trigger] s[i])
}

/// The digits of a number as `usize::from_str` reads them: one optional leading `+`.
pub open spec fn unsigned_body(s: Seq<char>) -> Seq<char> {
    if s.len() > 0 && s[0] == '+' {
        s.drop_first()
    } else {
        s
    }
}

/// The number that `usize::from_str` reads from `s`, if it reads one.
pub open spec fn parse_usize_spec(s: Seq<char>) -> Option<usize> {
    let body = unsigned_body(s);
    if body.len() > 0 && all_digits(body) && digits_value(body) <= usize::MAX {
        Some(digits_value(body) as usize)
    } else {
        None
    }
}

proof fn lemma_digits_value_nonneg(s: Seq<char>)
    requires
        all_digits(s),
    ensures
        digits_value(s) >= 0,
    decreases s.len(),
{
    if s.len() > 0 {
        lemma_digits_value_nonneg(s.drop_last());
        assert(is_digit(s[s.len() - 1]));
    }
}

proof fn lemma_digits_value_grows(s: Seq<char>, c: char)
    requires
        all_digits(s),
        is_digit(c),
    ensures
        digits_value(s.push(c)) == digits_value(s) * 10 + digit_value(c),
        digits_value(s.push(c)) >= digits_value(s),
{
    assert(s.push(c).drop_last() =~= s);
    lemma_digits_value_nonneg(s);
}

/// Reads an unsigned decimal number from `s`: one optional leading `+`, then one or more
/// ASCII digits, whose value fits in `usize`.
pub fn parse_usize(s: &str) -> (r: Option<usize>)
    ensures
        r == parse_usize_spec(s@),
{
    let n = s.unicode_len();
    let mut start: usize = 0;
    if n > 0 && s.get_char(0) == '+' {
        start = 1;
    }
    let ghost body = unsigned_body(s@);
    assert(body =~= s@.subrange(start as int, n as int));
    if start == n {
        return None;
    }
    let mut value: usize = 0;
    let mut i: usize = start;
    while i < n
        invariant
            start <= i <= n,
            n == s@.len(),
            body =~= s@.subrange(start as int, n as int),
            body == unsigned_body(s@),
            all_digits(s@.subrange(start as int, i as int)),
            value as int == digits_value(s@.subrange(start as int, i as int)),
        decreases n - i,
    {
        let c = s.get_char(i);
        let ghost prefix = s@.subrange(start as int, i as int);
        assert(s@.subrange(start as int, i + 1) =~= prefix.push(c));
        if !('0' <= c && c <= '9') {
            assert(body[i - start] == c);
            assert(!is_digit(body[i - start]));
            return None;
        }
        proof {
            lemma_digits_value_grows(prefix, c);
            assert(all_digits(prefix.push(c))) by {
                assert forall|k: int| 0 <= k < prefix.push(c).len() implies is_digit(#[trigger] prefix.push(c)[k]) by {
                    if k < prefix.len() {
                        assert(prefix.push(c)[k] == prefix[k]);
                    }
                }
            }
        }
        let d: usize = ((c as u32) - ('0' as u32)) as usize;
        if value > (usize::MAX - d) / 10 {
            proof {
                let rest = s@.subrange(i + 1, n as int);
                lemma_value_stays_large(prefix.push(c), rest);
                assert(prefix.push(c) + rest =~= body);
                assert(all_digits(body) ==> digits_value(body) > usize::MAX) by (nonlinear_arith)
                    requires
                        all_digits(body) ==> digits_value(body) >= digits_value(prefix.push(c)),
                        digits_value(prefix.push(c)) == value * 10 + d,
                        value > (usize::MAX - d) / 10,
                        d <= 9,
                ;
            }
            return None;
        }
        assert(value * 10 + d <= usize::MAX) by (nonlinear_arith)
            requires
                value <= (usize::MAX - d) / 10,
                d <= 9,
        ;
        value = value * 10 + d;
        i += 1;
    }
    Some(value)
}

/// Appending digits never makes the value smaller.
proof fn lemma_value_stays_large(p: Seq<char>, rest: Seq<char>)
    requires
        all_digits(p),
    ensures
        all_digits(p + rest) ==> digits_value(p + rest) >= digits_value(p),
    decreases rest.len(),
{
    if rest.len() > 0 && all_digits(p + rest) {
        let q = p + rest.drop_last();
        assert((p + rest).drop_last() =~= q);
        assert(all_digits(q)) by {
            assert forall|i: int| 0 <= i < q.len() implies is_digit(#[trigger] q[i]) by {
                assert(q[i] == (p + rest)[i]);
            }
        }
        lemma_value_stays_large(p, rest.drop_last());
        lemma_digits_value_nonneg(q);
        assert(is_digit((p + rest).last()));
    }
}

} // verus!
