//! Serving guests at their tables.

use vstd::prelude::*;

verus! {

/// Takes a table's order.
pub fn take_order() {
}

/// Brings a table its order.
pub fn serve_order() {
}

/// Takes a table's payment.
pub fn take_payment() {
}

} // verus!
