//! Small functions with tests of their own: rectangles that hold one another,
//! adding two, and a personal greeting.

use vstd::prelude::*;

verus! {

/// A rectangle given by its two side lengths.
pub struct Rectangle {
    pub width: u32,
    pub length: u32,
}

impl Rectangle {
    /// Whether `other` fits strictly inside this rectangle, sides aligned.
    pub fn can_hold(&self, other: &Rectangle) -> (r: bool)
        ensures
            r == (self.width > other.width && self.length > other.length),
    {
        self.width > other.width && self.length > other.length
    }
}

/// `a` plus two.
pub fn add_two(a: i32) -> (r: i32)
    requires
        a <= i32::MAX - 2,
    ensures
        r == a + 2,
{
    private_add_two(a)
}

/// `a` plus two: the helper that `add_two` calls.
pub fn private_add_two(a: i32) -> (r: i32)
    requires
        a <= i32::MAX - 2,
    ensures
        r == a + 2,
{
    a + 2
}

/// A greeting for `name`: `Hello, <name>!`.
pub fn greeting(name: &str) -> (r: String)
    ensures
        r@ == "Hello, "@ + name@ + "!"@,
{
    let mut r = String::from_str("Hello, ");
    r.append(name);
    r.append("!");
    r
}

} // verus!
