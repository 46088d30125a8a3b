//! Reading a string slice character by character, and white space.

use vstd::prelude::*;

verus! {

/// White space as `char::is_whitespace` sees it: the characters with
/// Unicode's White_Space property.
pub open spec fn is_white(c: char) -> bool {
    c == ' ' || ('\t' <= c && c <= '\r') || c == '\u{85}' || c == '\u{a0}' || c == '\u{1680}'
        || ('\u{2000}' <= c && c <= '\u{200a}') || c == '\u{2028}' || c == '\u{2029}'
        || c == '\u{202f}' || c == '\u{205f}' || c == '\u{3000}'
}

/// Whether `c` is white space, as `is_white` says.
pub(crate) fn is_white_char(c: char) -> (r: bool)
    ensures
        r == is_white(c),
{
    c == ' ' || ('\t' <= c && c <= '\r') || c == '\u{85}' || c == '\u{a0}' || c == '\u{1680}'
        || ('\u{2000}' <= c && c <= '\u{200a}') || c == '\u{2028}' || c == '\u{2029}'
        || c == '\u{202f}' || c == '\u{205f}' || c == '\u{3000}'
}

/// The characters of `s`, in order.
pub(crate) fn chars_of(s: &str) -> (r: Vec<char>)
    ensures
        r@ == s@,
{
    let mut r: Vec<char> = Vec::new();
    for c in it: s.chars()
        invariant
            r@ == it.seq().take(it.index() as int),
    {
        r.push(c);
    }
    r
}

/// The part of `s` before the first `sep`: all of `s` where it holds none.
pub(crate) fn prefix_before(s: &str, sep: char) -> (r: &str)
    ensures
        r@ == s@.take(r@.len() as int),
        forall|k: int| 0 <= k < r@.len() ==> r@[k] != sep,
        r@.len() == s@.len() || s@[r@.len() as int] == sep,
{
    let chars = chars_of(s);
    let mut i: usize = 0;
    while i < chars.len()
        invariant
            chars@ == s@,
            i <= chars@.len(),
            forall|k: int| 0 <= k < i ==> chars@[k] != sep,
        decreases chars@.len() - i,
    {
        if chars[i] == sep {
            return s.substring_char(0, i);
        }
        i = i + 1;
    }
    s.substring_char(0, i)
}

} // verus!
