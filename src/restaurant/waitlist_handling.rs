//! Keeping the waiting list; only the front of house reaches it.

use vstd::prelude::*;

verus! {

/// Counts one more guest on the waiting list.
pub fn incr_waitlist() {
}

} // verus!
