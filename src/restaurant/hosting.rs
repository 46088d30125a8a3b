//! Seating guests.

use vstd::prelude::*;

verus! {

/// Puts a guest on the waiting list.
pub fn add_to_waitlist() {
    super::waitlist_handling::incr_waitlist()
}

/// Shows a guest to a table.
pub fn seat_at_table() {
}

} // verus!
