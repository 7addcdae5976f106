//! The fixed response texts of the HTTP surface.
//!
//! Failure texts are deliberately coarse: one generic message per failing
//! endpoint, so that no query text or field value ever reaches a client.

use vstd::prelude::*;

verus! {

/// The fixed body returned for any request outside the two defined
/// endpoints.
pub fn not_found_body() -> (r: String)
    ensures
        r@ == "There's nothing in this address ;)\n"@,
{
    "There's nothing in this address ;)\n".to_owned()
}

/// The confirmation body for a successful write.
pub fn order_saved_body() -> (r: String)
    ensures
        r@ == "Order was successfully saved"@,
{
    "Order was successfully saved".to_owned()
}

/// The generic failure body for a write that could not be persisted.
pub fn save_failed_body() -> (r: String)
    ensures
        r@ == "Couldn't save the order"@,
{
    "Couldn't save the order".to_owned()
}

/// The generic failure body for a read that could not be served.
pub fn read_failed_body() -> (r: String)
    ensures
        r@ == "Couldn't get the orders"@,
{
    "Couldn't get the orders".to_owned()
}

} // verus!
