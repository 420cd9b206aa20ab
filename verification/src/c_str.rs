//! Copying NUL-terminated strings into fixed arrays of C characters and reading them back.
use vstd::prelude::*;
use crate::text::{push_str, u32_to_string};
use vstd::slice::SliceAdditionalExecFns;

verus! {

/// A NUL-terminated string was too long for the array it was to be written into.
#[derive(Debug)]
pub struct CStrTooLargeForStaticArray {
    pub static_array_size: usize,
    pub c_str_size: usize,
}

impl CStrTooLargeForStaticArray {
    /// The message that describes the error.
    pub fn message(&self) -> (r: String)
        ensures
            r@ == "static `c_char` target array of length `"@ + usize_decimal(self.static_array_size)
                + "` is too small to write a `CStr` (with `NUL`-terminator) of length `"@ + usize_decimal(self.c_str_size) + "`"@,
    {
        let mut r = String::new();
        push_str(&mut r, "static `c_char` target array of length `");
        let a = usize_to_string(self.static_array_size);
        push_str(&mut r, a.as_str());
        push_str(&mut r, "` is too small to write a `CStr` (with `NUL`-terminator) of length `");
        let b = usize_to_string(self.c_str_size);
        push_str(&mut r, b.as_str());
        push_str(&mut r, "`");
        r
    }
}

pub open spec fn usize_decimal(n: usize) -> Seq<char> {
    crate::text::decimal(n as nat)
}

/// The decimal representation of a `usize`, as `Display` writes it.
pub fn usize_to_string(n: usize) -> (r: String)
    ensures
        r@ == usize_decimal(n),
    decreases n,
{
    if n < 10 {
        u32_to_string(n as u32)
    } else {
        let mut r = usize_to_string(n / 10);
        let d = u32_to_string((n % 10) as u32);
        push_str(&mut r, d.as_str());
        r
    }
}

/// Copies the bytes of a string with its NUL terminator to the start of `target`, the
/// rest of `target` left as it was; refused where `target` is shorter.
pub fn write_c_str_slice_with_nul(target: &mut [u8], bytes_with_nul: &[u8]) -> (r: Result<(), CStrTooLargeForStaticArray>)
    ensures
        match r {
            Ok(()) => {
                &&& bytes_with_nul@.len() <= old(target)@.len()
                &&& final(target)@ == bytes_with_nul@ + old(target)@.subrange(bytes_with_nul@.len() as int, old(target)@.len() as int)
            },
            Err(e) => {
                &&& bytes_with_nul@.len() > old(target)@.len()
                &&& e.static_array_size == old(target)@.len()
                &&& e.c_str_size == bytes_with_nul@.len()
                &&& final(target)@ == old(target)@
            },
        },
{
    let static_array_size = target.len();
    if bytes_with_nul.len() > static_array_size {
        return Err(CStrTooLargeForStaticArray { static_array_size, c_str_size: bytes_with_nul.len() });
    }
    let mut i: usize = 0;
    while i < bytes_with_nul.len()
        invariant
            i <= bytes_with_nul@.len() <= target@.len(),
            target@.len() == old(target)@.len(),
            static_array_size == target@.len(),
            forall|j: int| 0 <= j < i ==> target@[j] == bytes_with_nul@[j],
            forall|j: int| i <= j < target@.len() ==> target@[j] == old(target)@[j],
        decreases bytes_with_nul.len() - i,
    {
        target[i] = bytes_with_nul[i];
        i += 1;
    }
    assert(target@ =~= bytes_with_nul@ + old(target)@.subrange(bytes_with_nul@.len() as int, old(target)@.len() as int));
    Ok(())
}

/// The position of the first NUL in `s`, if any.
pub open spec fn first_nul(s: Seq<u8>) -> Option<int>
    decreases s.len(),
{
    if s.len() == 0 {
        None
    } else if s.last() != 0 && first_nul(s.drop_last()) is None {
        None
    } else if first_nul(s.drop_last()) is Some {
        first_nul(s.drop_last())
    } else {
        Some(s.len() - 1)
    }
}

pub proof fn lemma_first_nul(s: Seq<u8>)
    ensures
        first_nul(s) matches Some(i) ==> 0 <= i < s.len() && s[i] == 0 && forall|j: int| 0 <= j < i ==> s[j] != 0,
        first_nul(s) is None ==> forall|j: int| 0 <= j < s.len() ==> s[j] != 0,
    decreases s.len(),
{
    if s.len() > 0 {
        lemma_first_nul(s.drop_last());
        assert forall|j: int| 0 <= j < s.len() - 1 implies s[j] == s.drop_last()[j] by {}
    }
}

/// The NUL-terminated string at the start of `s`: up to and with its first NUL.
pub open spec fn c_str_until_nul(s: Seq<u8>) -> Option<Seq<u8>> {
    match first_nul(s) {
        Some(i) => Some(s.subrange(0, i + 1)),
        None => None,
    }
}

/// The bytes of a NUL-terminated string at the start of `s`, the first NUL included
/// (`CStr::from_bytes_until_nul`); `None` where `s` holds no NUL.
pub fn wrap_c_str_slice_until_nul(s: &[u8]) -> (r: Option<&[u8]>)
    ensures
        match r {
            Some(c) => c_str_until_nul(s@) == Some(c@),
            None => c_str_until_nul(s@) is None,
        },
{
    proof {
        lemma_first_nul(s@);
    }
    let mut i: usize = 0;
    while i < s.len()
        invariant
            i <= s@.len(),
            forall|j: int| 0 <= j < i ==> s@[j] != 0,
        decreases s.len() - i,
    {
        if s[i] == 0 {
            let (c, _) = s.split_at(i + 1);
            assert(c@ == s@.subrange(0, i + 1));
            proof {
                lemma_first_nul(s@);
                let kk = first_nul(s@).unwrap();
                if kk < i {
                    assert(s@[kk] != 0);
                } else if kk > i {
                    assert(s@[i as int] != 0);
                }
            }
            return Some(c);
        }
        i += 1;
    }
    None
}

} // verus!
