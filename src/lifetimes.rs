//! Borrowed string slices returned from functions and held in structs.

use vstd::prelude::*;
use crate::text::prefix_before;

verus! {

/// The longer of two string slices by length in bytes; `y` where the two
/// are equally long.
pub fn longest<'a>(x: &'a str, y: &'a str) -> (r: &'a str)
    ensures
        r == (if x.len() > y.len() {
            x
        } else {
            y
        }),
{
    if x.len() > y.len() {
        x
    } else {
        y
    }
}

/// A part of a longer text, borrowed from it.
pub struct ImportantExcerpt<'a> {
    pub part: &'a str,
}

impl<'a> ImportantExcerpt<'a> {
    /// The excerpt of `text` before its first full stop: all of `text`
    /// where it has none.
    pub fn first_sentence(text: &'a str) -> (r: ImportantExcerpt<'a>)
        ensures
            r.part@ == text@.take(r.part@.len() as int),
            forall|k: int| 0 <= k < r.part@.len() ==> r.part@[k] != '.',
            r.part@.len() == text@.len() || text@[r.part@.len() as int] == '.',
    {
        ImportantExcerpt { part: prefix_before(text, '.') }
    }

    /// The level of importance of every excerpt.
    pub fn level(&self) -> (r: i32)
        ensures
            r == 3,
    {
        3
    }
}

} // verus!
