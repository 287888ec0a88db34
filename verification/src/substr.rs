//! Slicing of a text by characters.

use vstd::prelude::*;
use vstd::string::*;
use crate::error::SourcelinkError;

verus! {

/// The smaller of two numbers.
pub open spec fn lesser(a: int, b: int) -> int {
    if a <= b {
        a
    } else {
        b
    }
}

/// The `len` characters of `s` that follow its first `start` characters, or
/// as many of them as `s` has.
pub open spec fn window(s: Seq<char>, start: int, len: int) -> Seq<char> {
    s.subrange(lesser(start, s.len() as int), lesser(start + len, s.len() as int))
}

/// The `len` characters of `s` that follow its first `start` characters.
///
/// Fails with `SubstrRange` where `start + len` is more than the length of
/// `s` in bytes.
pub fn substr(s: &str, start: usize, len: usize) -> (r: Result<String, SourcelinkError>)
    ensures
        match r {
            Ok(text) => start + len <= s.spec_bytes().len() && text@ == window(
                s@,
                start as int,
                len as int,
            ),
            Err(e) => start + len > s.spec_bytes().len() && e == SourcelinkError::SubstrRange,
        },
{
    let size = s.as_bytes().len();
    if len > size || start > size - len {
        Err(SourcelinkError::SubstrRange)
    } else {
        let count = s.unicode_len();
        let end = start + len;
        let from = if start <= count {
            start
        } else {
            count
        };
        let to = if end <= count {
            end
        } else {
            count
        };
        Ok(s.substring_char(from, to).to_owned())
    }
}

/// Whether `right` stands in `left` after its first `start` characters.
///
/// It does not where `start` and the length of `right` in bytes together
/// are more than the length of `left` in bytes.
pub fn substr_eq(left: &str, start: usize, right: &str) -> (r: bool)
    ensures
        r == (start + right.spec_bytes().len() <= left.spec_bytes().len() && window(
            left@,
            start as int,
            right.spec_bytes().len() as int,
        ) == right@),
{
    match substr(left, start, right.as_bytes().len()) {
        Ok(text) => text == right.to_owned(),
        Err(_) => false,
    }
}

} // verus!
