//! Orders as the engine plans them, and the ways a single order can fail.

use vstd::prelude::*;

verus! {

/// Direction of an order.
#[derive(Clone, Copy, Debug, PartialEq, Eq, Structural)]
pub enum Side {
    Buy,
    Sell,
}

/// One rung of a plan: an order to submit, before the fee model and
/// normalization of the submission path are applied.
#[derive(Clone, Copy, Debug, PartialEq, Eq, Structural)]
pub struct OrderRequest {
    pub side: Side,
    /// Limit price in fixed-point units (the reference price for a market order).
    pub price: u64,
    /// Requested base-asset quantity in fixed-point units.
    pub quantity: u64,
    /// `true` for a market order, `false` for a good-till-cancelled limit order.
    pub market: bool,
}

/// A row of the trade ledger: an order the exchange accepted.
#[derive(Clone, Debug)]
pub struct Trade {
    pub symbol: String,
    pub side: Side,
    pub price: u64,
    pub quantity: u64,
    /// Exchange-assigned order id; unique within the ledger.
    pub order_id: u64,
    /// Profit attributed to the trade, when one was computed.
    pub profit: Option<u64>,
}

/// Why a single order (or a rung of a plan) was not placed.
#[derive(Clone, Copy, Debug, PartialEq, Eq, Structural)]
pub enum OrderError {
    /// A price of zero was given where a positive price is needed.
    InvalidPrice,
    /// A computed price, quantity or value does not fit the fixed-point range.
    OutOfRange,
    /// The normalized quantity is below the exchange's minimum quantity.
    BelowMinimum,
    /// The base asset's free balance never covered the sell quantity.
    InsufficientBalance,
    /// The exchange's server time could not be fetched.
    ServerTimeUnavailable,
    /// The exchange answered and refused the order.
    Rejected,
    /// The exchange could not be reached, so the order's fate is unknown.
    Unreachable,
    /// The exchange answered with success but without a readable order id.
    MalformedAnswer,
    /// The exchange accepted the order but the trade could not be recorded.
    RecordFailed,
    /// The buy this sell is paired with was not accepted, so it was not sent.
    PairNotBought,
}

/// The description of an order error.
pub open spec fn error_text(e: OrderError) -> Seq<char> {
    match e {
        OrderError::InvalidPrice => "price must be positive"@,
        OrderError::OutOfRange => "value out of fixed-point range"@,
        OrderError::BelowMinimum => "quantity below minimum LOT_SIZE"@,
        OrderError::InsufficientBalance => "insufficient balance for requested action"@,
        OrderError::ServerTimeUnavailable => "failed to sync timestamp"@,
        OrderError::Rejected => "order rejected by the exchange"@,
        OrderError::Unreachable => "request error: exchange not reached"@,
        OrderError::MalformedAnswer => "exchange answer without an order id"@,
        OrderError::RecordFailed => "accepted order could not be recorded"@,
        OrderError::PairNotBought => "paired buy was not accepted"@,
    }
}

impl OrderError {
    /// A short human-readable description.
    pub fn message(&self) -> (r: &'static str)
        ensures
            r@ == error_text(*self),
    {
        match self {
            OrderError::InvalidPrice => "price must be positive",
            OrderError::OutOfRange => "value out of fixed-point range",
            OrderError::BelowMinimum => "quantity below minimum LOT_SIZE",
            OrderError::InsufficientBalance => "insufficient balance for requested action",
            OrderError::ServerTimeUnavailable => "failed to sync timestamp",
            OrderError::Rejected => "order rejected by the exchange",
            OrderError::Unreachable => "request error: exchange not reached",
            OrderError::MalformedAnswer => "exchange answer without an order id",
            OrderError::RecordFailed => "accepted order could not be recorded",
            OrderError::PairNotBought => "paired buy was not accepted",
        }
    }
}

/// Whether `id` is among the order ids `ids`.
pub fn contains_id(ids: &Vec<u64>, id: u64) -> (r: bool)
    ensures
        r == ids@.contains(id),
{
    let mut i: usize = 0;
    while i < ids.len()
        invariant
            i <= ids@.len(),
            forall|j: int| 0 <= j < i ==> ids@[j] != id,
        decreases ids@.len() - i,
    {
        if ids[i] == id {
            return true;
        }
        i = i + 1;
    }
    false
}

} // verus!
