//! Rust identifiers: when `proc_macro2` and `quote` accept a string as one, what
//! `syn` reads as one, and the case conversions of `heck`.
use vstd::prelude::*;
use crate::text::{has_prefix, str_eq, strip_prefix};

verus! {

/// Whether `unicode_ident::is_xid_start` holds of a character.
pub uninterp spec fn xid_start(c: char) -> bool;

/// Whether `unicode_ident::is_xid_continue` holds of a character.
pub uninterp spec fn xid_continue(c: char) -> bool;

pub open spec fn is_ascii_letter(c: char) -> bool {
    ('a' <= c && c <= 'z') || ('A' <= c && c <= 'Z')
}

pub open spec fn is_ascii_digit(c: char) -> bool {
    '0' <= c && c <= '9'
}

/// Calls `unicode_ident::is_xid_start`. Claimed: the result is `xid_start(c)`, and on
/// ASCII characters it holds exactly of the letters (the crate's `ASCII_START` mask).
#[verifier::external_body]
fn is_xid_start(c: char) -> (r: bool)
    ensures
        r == xid_start(c),
        (c as u32) < 128 ==> (r <==> is_ascii_letter(c)),
{
    unicode_ident::is_xid_start(c)
}

/// Calls `unicode_ident::is_xid_continue`. Claimed: the result is `xid_continue(c)`, and
/// on ASCII characters it holds exactly of letters, digits and `_` (the crate's
/// `ASCII_CONTINUE` mask).
#[verifier::external_body]
fn is_xid_continue(c: char) -> (r: bool)
    ensures
        r == xid_continue(c),
        (c as u32) < 128 ==> (r <==> (is_ascii_letter(c) || is_ascii_digit(c) || c == '_')),
{
    unicode_ident::is_xid_continue(c)
}

/// A character that may begin an identifier (`proc_macro2`'s `is_ident_start`).
pub open spec fn ident_start(c: char) -> bool {
    c == '_' || if (c as u32) < 128 {
        is_ascii_letter(c)
    } else {
        xid_start(c)
    }
}

/// A character that may continue an identifier (`proc_macro2`'s `is_ident_continue`).
pub open spec fn ident_continue(c: char) -> bool {
    if (c as u32) < 128 {
        is_ascii_letter(c) || is_ascii_digit(c) || c == '_'
    } else {
        xid_continue(c)
    }
}

/// The strings that `proc_macro2::Ident::new` accepts: nonempty, not all digits, a start
/// character followed by continue characters.
pub open spec fn ident_ok(s: Seq<char>) -> bool {
    &&& s.len() > 0
    &&& !(forall|i: int| 0 <= i < s.len() ==> is_ascii_digit(#[trigger] s[i]))
    &&& ident_start(s[0])
    &&& forall|i: int| 1 <= i < s.len() ==> ident_continue(#[trigger] s[i])
}

/// The strings that `proc_macro2::Ident::new_raw` accepts.
pub open spec fn raw_ident_ok(s: Seq<char>) -> bool {
    &&& ident_ok(s)
    &&& s != "_"@
    &&& s != "super"@
    &&& s != "self"@
    &&& s != "Self"@
    &&& s != "crate"@
}

/// The strings from which `format_ident!` makes an identifier without panicking: a raw
/// identifier after `r#`, a plain one otherwise.
pub open spec fn format_ident_ok(s: Seq<char>) -> bool {
    if has_prefix(s, "r#"@) {
        raw_ident_ok(s.subrange("r#"@.len() as int, s.len() as int))
    } else {
        ident_ok(s)
    }
}

fn check_start(c: char) -> (r: bool)
    ensures
        r == ident_start(c),
{
    c == '_' || is_xid_start(c)
}

fn check_continue(c: char) -> (r: bool)
    ensures
        r == ident_continue(c),
{
    is_xid_continue(c)
}

/// Whether `proc_macro2::Ident::new` accepts `s`.
pub fn check_ident(s: &str) -> (r: bool)
    ensures
        r == ident_ok(s@),
{
    let n = s.unicode_len();
    if n == 0 {
        return false;
    }
    let mut all_digits = true;
    let mut i: usize = 0;
    while i < n
        invariant
            i <= n,
            n == s@.len(),
            all_digits == forall|j: int| 0 <= j < i ==> is_ascii_digit(#[trigger] s@[j]),
        decreases n - i,
    {
        let c = s.get_char(i);
        if !('0' <= c && c <= '9') {
            all_digits = false;
        }
        i += 1;
    }
    if all_digits {
        return false;
    }
    if !check_start(s.get_char(0)) {
        return false;
    }
    let mut k: usize = 1;
    while k < n
        invariant
            1 <= k <= n,
            n == s@.len(),
            forall|j: int| 1 <= j < k ==> ident_continue(#[trigger] s@[j]),
        decreases n - k,
    {
        if !check_continue(s.get_char(k)) {
            return false;
        }
        k += 1;
    }
    true
}

/// Whether `proc_macro2::Ident::new_raw` accepts `s`.
pub fn check_raw_ident(s: &str) -> (r: bool)
    ensures
        r == raw_ident_ok(s@),
{
    check_ident(s) && !str_eq(s, "_") && !str_eq(s, "super") && !str_eq(s, "self") && !str_eq(s, "Self") && !str_eq(s, "crate")
}

/// Whether `format_ident!` accepts `s`.
pub fn check_format_ident(s: &str) -> (r: bool)
    ensures
        r == format_ident_ok(s@),
{
    match strip_prefix(s, "r#") {
        Some(rest) => check_raw_ident(rest),
        None => check_ident(s),
    }
}

/// Makes a `proc_macro2::Ident` of `s` and writes it out. Claimed: the identifier
/// prints as `s` (it is not raw).
#[verifier::external_body]
fn new_ident(s: &str) -> (r: String)
    requires
        ident_ok(s@),
    ensures
        r@ == s@,
{
    proc_macro2::Ident::new(s, proc_macro2::Span::call_site()).to_string()
}

/// Makes a raw `proc_macro2::Ident` of `s` and writes it out. Claimed: it prints as
/// `r#` followed by `s`.
#[verifier::external_body]
fn new_raw_ident(s: &str) -> (r: String)
    requires
        raw_ident_ok(s@),
    ensures
        r@ == "r#"@ + s@,
{
    proc_macro2::Ident::new_raw(s, proc_macro2::Span::call_site()).to_string()
}

/// The identifier that `format_ident!("{}", s)` makes, as text: `s` itself.
pub fn format_ident(s: &str) -> (r: String)
    requires
        format_ident_ok(s@),
    ensures
        r@ == s@,
{
    match strip_prefix(s, "r#") {
        Some(rest) => {
            let r = new_raw_ident(rest);
            assert(s@ =~= s@.subrange(0, "r#"@.len() as int) + rest@);
            r
        },
        None => new_ident(s),
    }
}

/// What `syn::parse_str::<syn::Ident>` reads from a string: the identifier's text, or
/// nothing where the string is not exactly one identifier (keywords are refused).
pub uninterp spec fn syn_ident(s: Seq<char>) -> Option<Seq<char>>;

/// Calls `syn::parse_str::<syn::Ident>` and writes out the identifier it read.
#[verifier::external_body]
pub(crate) fn parse_ident(s: &str) -> (r: Option<String>)
    ensures
        match r {
            Some(t) => syn_ident(s@) == Some(t@),
            None => syn_ident(s@) is None,
        },
{
    match syn::parse_str::<syn::Ident>(s) {
        Ok(ident) => Some(ident.to_string()),
        Err(_) => None,
    }
}

/// What `heck::ToSnakeCase::to_snake_case` makes of a string.
pub uninterp spec fn snake_case(s: Seq<char>) -> Seq<char>;

/// What `heck::ToShoutySnakeCase::to_shouty_snake_case` makes of a string.
pub uninterp spec fn shouty_snake_case(s: Seq<char>) -> Seq<char>;

/// What `heck::ToUpperCamelCase::to_upper_camel_case` makes of a string.
pub uninterp spec fn upper_camel_case(s: Seq<char>) -> Seq<char>;

/// Calls `heck::ToSnekCase::to_snek_case`.
#[verifier::external_body]
pub(crate) fn to_snek_case(s: &str) -> (r: String)
    ensures
        r@ == snake_case(s@),
{
    heck::ToSnekCase::to_snek_case(s)
}

/// Calls `heck::ToShoutySnekCase::TO_SHOUTY_SNEK_CASE`.
#[verifier::external_body]
pub(crate) fn to_shouty_snek_case(s: &str) -> (r: String)
    ensures
        r@ == shouty_snake_case(s@),
{
    heck::ToShoutySnekCase::TO_SHOUTY_SNEK_CASE(s)
}

/// Calls `heck::ToUpperCamelCase::to_upper_camel_case`.
#[verifier::external_body]
pub(crate) fn to_upper_camel_case(s: &str) -> (r: String)
    ensures
        r@ == upper_camel_case(s@),
{
    heck::ToUpperCamelCase::to_upper_camel_case(s)
}

} // verus!

verus! {

/// The text of the string literal that `proc_macro2::Literal::string` makes of a string.
pub uninterp spec fn str_literal(s: Seq<char>) -> Seq<char>;

/// Calls `proc_macro2::Literal::string` and writes the literal out.
#[verifier::external_body]
pub(crate) fn string_literal(s: &str) -> (r: String)
    ensures
        r@ == str_literal(s@),
{
    proc_macro2::Literal::string(s).to_string()
}

/// The text of the C string literal that `proc_macro2::Literal::c_string` makes of a
/// string without NUL.
pub uninterp spec fn c_str_literal(s: Seq<char>) -> Seq<char>;

/// Makes the NUL-terminated C string of `s` (`CStr::from_bytes_with_nul`) and the
/// `proc_macro2::Literal::c_string` of it, and writes the literal out.
#[verifier::external_body]
pub(crate) fn c_string_literal(s: &str) -> (r: String)
    requires
        forall|i: int| 0 <= i < s@.len() ==> s@[i] != '\0',
    ensures
        r@ == c_str_literal(s@),
{
    let mut bytes = s.as_bytes().to_vec();
    bytes.push(0);
    proc_macro2::Literal::c_string(core::ffi::CStr::from_bytes_with_nul(&bytes).unwrap()).to_string()
}

} // verus!
