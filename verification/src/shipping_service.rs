//! The two operations of the service, as far as they decide anything: what
//! a cart counts to, what is answered to a request for a quote, and what to
//! an order to ship.

use crate::quote::{QuoteError, Quoted};
use crate::tracking::{create_tracking_id, is_tracking_id};
use vstd::prelude::*;
use vstd::string::StringExecFns;

verus! {

/// Where to ship to. Nothing is computed from it.
#[derive(Clone, Debug, PartialEq, Eq)]
pub struct Address {
    pub zip_code: String,
}

/// One position of a cart.
#[derive(Clone, Debug, PartialEq, Eq)]
pub struct CartItem {
    pub quantity: u32,
}

/// A request for a shipping quote.
#[derive(Clone, Debug, PartialEq, Eq)]
pub struct GetQuoteRequest {
    pub address: Option<Address>,
    pub items: Vec<CartItem>,
}

/// An amount in a currency: `units + nanos / 1_000_000_000`.
#[derive(Clone, Debug, PartialEq, Eq)]
pub struct Money {
    pub currency_code: String,
    pub units: u64,
    pub nanos: u32,
}

/// The answer to a request for a quote that could be met.
#[derive(Clone, Debug, PartialEq, Eq)]
pub struct GetQuoteResponse {
    pub cost_usd: Option<Money>,
}

/// The answer to a request for a quote that could not be met.
#[derive(Clone, Debug, PartialEq, Eq)]
pub struct QuoteFailure {
    pub error: String,
    pub trace_id: String,
}

/// The answer to a request for a quote.
#[derive(Clone, Debug, PartialEq, Eq)]
pub enum GetQuoteReply {
    /// The cost, sent with a status of success.
    Quoted(GetQuoteResponse),
    /// A message and the identifier of the trace, sent as an internal error.
    Failed(QuoteFailure),
}

/// An order to ship. It has no fields.
#[derive(Clone, Debug, PartialEq, Eq)]
pub struct ShipOrderRequest {}

/// The answer to an order to ship.
#[derive(Clone, Debug, PartialEq, Eq)]
pub struct ShipOrderResponse {
    pub tracking_id: String,
}

/// The quantities of `items`, added up.
pub open spec fn total_quantity(items: Seq<CartItem>) -> nat
    decreases items.len(),
{
    if items.len() == 0 {
        0
    } else {
        total_quantity(items.drop_last()) + items.last().quantity as nat
    }
}

/// How many nanos one cent is.
pub open spec fn nanos_per_cent() -> nat {
    10_000_000
}

/// Whether `reply` is the answer that `outcome` calls for: the cost in US
/// dollars where there is a quote, the cents as nanos; else the failure,
/// with the identifier of the trace.
pub open spec fn is_reply_for(
    reply: GetQuoteReply,
    outcome: Result<Quoted, QuoteError>,
    trace_id: Seq<char>,
) -> bool {
    match outcome {
        Ok(quoted) => {
            &&& reply matches GetQuoteReply::Quoted(response)
            &&& response.cost_usd matches Some(money)
            &&& money.currency_code@ == "USD"@
            &&& money.units == quoted.quote.dollars
            &&& money.nanos == quoted.quote.cents * nanos_per_cent()
        },
        Err(_) => {
            &&& reply matches GetQuoteReply::Failed(failure)
            &&& failure.error@ == "Failed to calculate shipping quote"@
            &&& failure.trace_id@ == trace_id
        },
    }
}

/// A longer cart counts to no less.
pub proof fn lemma_total_quantity_grows(items: Seq<CartItem>, n: int)
    requires
        0 <= n <= items.len(),
    ensures
        total_quantity(items.take(n)) <= total_quantity(items),
    decreases items.len() - n,
{
    if n == items.len() {
        assert(items.take(n) =~= items);
    } else {
        lemma_total_quantity_grows(items.drop_last(), n);
        assert(items.drop_last().take(n) =~= items.take(n));
    }
}

/// The number of items in a cart: the sum of the quantities of its
/// positions; `None` where the sum is beyond `u32`.
pub fn item_count(request: &GetQuoteRequest) -> (count: Option<u32>)
    ensures
        count == if total_quantity(request.items@) <= u32::MAX {
            Some(total_quantity(request.items@) as u32)
        } else {
            None
        },
{
    let mut sum: u32 = 0;
    let mut i: usize = 0;
    while i < request.items.len()
        invariant
            i <= request.items.len(),
            sum == total_quantity(request.items@.take(i as int)),
        decreases request.items.len() - i,
    {
        let quantity = request.items[i].quantity;
        proof {
            assert(request.items@.take(i + 1).drop_last() =~= request.items@.take(i as int));
            lemma_total_quantity_grows(request.items@, i + 1);
        }
        if quantity > u32::MAX - sum {
            return None;
        }
        sum = sum + quantity;
        i = i + 1;
    }
    assert(request.items@.take(i as int) =~= request.items@);
    Some(sum)
}

/// The answer to a request for a quote, once it is known how the quote came
/// out. `trace_id` names the trace that the request belongs to.
pub fn get_quote(outcome: Result<Quoted, QuoteError>, trace_id: String) -> (reply: GetQuoteReply)
    requires
        outcome matches Ok(quoted) ==> quoted.quote.wf(),
    ensures
        is_reply_for(reply, outcome, trace_id@),
{
    match outcome {
        Ok(quoted) => GetQuoteReply::Quoted(
            GetQuoteResponse {
                cost_usd: Some(
                    Money {
                        currency_code: String::from_str("USD"),
                        units: quoted.quote.dollars,
                        nanos: quoted.quote.cents * 10_000_000,
                    },
                ),
            },
        ),
        Err(_) => GetQuoteReply::Failed(
            QuoteFailure {
                error: String::from_str("Failed to calculate shipping quote"),
                trace_id,
            },
        ),
    }
}

/// The answer to an order to ship: a new tracking identifier. Nothing in
/// the order can make this fail.
pub fn ship_order(request: ShipOrderRequest) -> (response: ShipOrderResponse)
    ensures
        is_tracking_id(response.tracking_id@),
        response.tracking_id@.len() == 36,
{
    ShipOrderResponse { tracking_id: create_tracking_id() }
}

} // verus!
