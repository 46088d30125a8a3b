//! The waiting staff.

use vstd::prelude::*;

verus! {

/// Waits on the guests: looks at the waiting list first.
pub fn wait() {
    crate::restaurant::get_waitlist();
}

} // verus!
