//! The client side of a query.

use crate::proto::{StockRequest, Store};
use vstd::prelude::*;

verus! {

/// Returns the request that asks for the items of `store`.
/// `show_unavailable` decides whether items of which nothing is left are
/// asked for too. What the request is read as is what was given here.
pub fn generate_list_request(store: Store, show_unavailable: bool) -> (req: StockRequest)
    ensures
        req.store == store,
        req.display_unavailable_items == show_unavailable,
{
    let mut req = StockRequest::new();
    req.set_store(store);
    req.set_display_unavailable_items(show_unavailable);
    req
}

} // verus!
