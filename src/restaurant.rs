//! A restaurant laid out as a tree of modules: the front of house, where
//! guests wait and are served, and the back of house, where meals are made.

pub mod back_of_house;
pub mod hosting;
pub mod serving;
pub mod waiter;
mod waitlist_handling;

pub use back_of_house::order_breakfast;

use vstd::prelude::*;

verus! {

/// Looks at the waiting list.
pub fn get_waitlist() {
}

/// A guest arrives and is put on the waiting list, twice over: once by an
/// absolute path and once by a relative one.
pub fn eat_at_restaurant() {
    crate::restaurant::hosting::add_to_waitlist();
    self::hosting::add_to_waitlist();
}

/// Puts `n` diners on the waiting list, one after another.
pub fn load_n_diners(n: i32) {
    let mut diner: i32 = 0;
    while diner < n
        decreases n - diner,
    {
        hosting::add_to_waitlist();
        diner = diner + 1;
    }
}

} // verus!
