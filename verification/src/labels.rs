//! Label text helpers: validity of a decoded label and assembly of a
//! `String` from decoded characters.

use vstd::prelude::*;
use vstd::string::StrSliceExecFns;

verus! {

/// Unicode general category Cc (control characters).
pub open spec fn is_control(c: char) -> bool {
    (c as u32) <= 0x1F || (0x7F <= (c as u32) && (c as u32) <= 0x9F)
}

/// A label is usable when it is non-empty and holds no control character.
pub open spec fn valid_label(s: Seq<char>) -> bool {
    s.len() > 0 && forall|i: int| 0 <= i < s.len() ==> !is_control(#[trigger] s[i])
}

pub fn char_is_control(c: char) -> (b: bool)
    ensures b == is_control(c),
{
    let v = c as u32;
    v <= 0x1F || (0x7F <= v && v <= 0x9F)
}

/// Whether `label` is a plausible human-readable label.
pub fn is_valid_label(label: &str) -> (b: bool)
    ensures b == valid_label(label@),
{
    let n = label.unicode_len();
    if n == 0 {
        return false;
    }
    let mut i: usize = 0;
    while i < n
        invariant
            i <= n,
            n == label@.len(),
            forall|t: int| 0 <= t < i ==> !is_control(#[trigger] label@[t]),
        decreases n - i,
    {
        if char_is_control(label.get_char(i)) {
            return false;
        }
        i = i + 1;
    }
    true
}

/// `std`'s `String: FromIterator<char>`: the string of the given characters.
#[verifier::external_body]
pub(crate) fn string_from_chars(chars: &[char]) -> (s: String)
    ensures s@ == chars@,
{
    chars.iter().collect()
}

} // verus!
