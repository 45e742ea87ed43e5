//! The service side of a query: a handler that turns a request into a
//! response over any stock, and the service that answers calls with it.

use crate::proto::{item_views, Item, StockRequest, StockResponse};
use crate::inventory::shows;
use crate::{Stock, StockImpl};
use vstd::prelude::*;

pub mod client;

verus! {

/// Whether `resp` hands on an answer of `stock` to `req`: the stock may give
/// some items for the store and the flag of the request, and the response
/// holds those items, all of them and in their order.
pub open spec fn hands_on<S: Stock>(stock: S, req: StockRequest, resp: StockResponse) -> bool {
    exists|items: Vec<Item>|
        {
            &&& #[trigger] call_ensures(
                S::get,
                (&stock, req.store, req.display_unavailable_items),
                items,
            )
            &&& resp@ == item_views(items@)
        }
}

/// Answers requests from a stock. It keeps nothing of a request once the
/// response is made, so one handler, or its clones, can serve any number of
/// callers.
pub struct Handler<S> where S: Stock + Send + Clone + 'static {
    stock: S,
}

impl<S> Clone for Handler<S> where S: Stock + Send + Clone + 'static {
    /// The copy answers from a clone of the stock.
    fn clone(&self) -> (copy: Self)
        ensures
            cloned(self.stock(), copy.stock()),
    {
        Self { stock: self.stock.clone() }
    }
}

impl<S> Handler<S> where S: Stock + Send + Clone + 'static {
    /// The stock that the handler answers from.
    pub closed spec fn stock(&self) -> S {
        self.stock
    }

    /// Returns a handler that answers from `stock`.
    pub fn new(stock: S) -> (handler: Self)
        ensures
            handler.stock() == stock,
    {
        Self { stock }
    }

    /// Answers a request: the response holds what the stock gives for the
    /// store and the flag of the request, as the stock gives it. Nothing is
    /// added, left out or put in another order.
    pub fn handle(&self, req: StockRequest) -> (resp: StockResponse)
        ensures
            hands_on(self.stock(), req, resp),
    {
        StockResponse::from_items(
            self.stock.get(req.get_store(), req.get_display_unavailable_items()),
        )
    }
}

/// Answers the calls that reach the service, each from its request alone.
pub struct Service<S> where S: Stock + Send + Clone + 'static {
    handler: Handler<S>,
}

impl<S> Clone for Service<S> where S: Stock + Send + Clone + 'static {
    /// The copy answers with a clone of the handler.
    fn clone(&self) -> (copy: Self)
        ensures
            cloned(self.handler().stock(), copy.handler().stock()),
    {
        Self { handler: self.handler.clone() }
    }
}

impl<S> Service<S> where S: Stock + Send + Clone + 'static {
    /// The handler that the service answers with.
    pub closed spec fn handler(&self) -> Handler<S> {
        self.handler
    }

    /// Returns a service that answers with `handler`.
    pub fn new(handler: Handler<S>) -> (service: Self)
        ensures
            service.handler() == handler,
    {
        Self { handler }
    }

    /// The response to one call: what the handler makes of the request.
    pub fn list_items(&self, req: StockRequest) -> (resp: StockResponse)
        ensures
            hands_on(self.handler().stock(), req, resp),
    {
        self.handler.handle(req)
    }
}

/// What is handed on from the in-memory stock shows the inventory of the
/// store that the request names: one item for each product that is shown,
/// and nothing else.
pub proof fn lemma_hands_on_inventory(stock: StockImpl, req: StockRequest, resp: StockResponse)
    requires
        hands_on(stock, req, resp),
    ensures
        shows(stock.inventory(req.store), req.display_unavailable_items, resp@),
{
}

} // verus!
