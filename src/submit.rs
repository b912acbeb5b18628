//! Order submission: fee adjustment, normalization and the minimum-quantity
//! check, then (for sells) the balance guard, a fresh server timestamp, the
//! exchange call and the ledger write, as a state machine driven by the
//! outcomes of the outside calls.

use vstd::prelude::*;
use vstd::string::StringExecFns;
use crate::balance::{counted, reaches, verdict_of, BalanceGuard, GuardVerdict};
use crate::config::StrategyConfig;
use crate::decimal::{apply_fee, fee_adjusted};
use crate::lot::{lot_check, LotSize};
use crate::order::{OrderError, OrderRequest, Side, Trade};
use crate::text::{
    base_asset_of, digits, extract_base_asset, format_integer, format_price, format_quantity, price_text,
    quantity_text,
};

verus! {

/// An order ready for the exchange: the quantity is fee-adjusted (sells),
/// normalized and at least the minimum quantity.
#[derive(Clone, Copy, Debug, PartialEq, Eq, Structural)]
pub struct PreparedOrder {
    pub side: Side,
    pub price: u64,
    pub quantity: u64,
    pub market: bool,
}

/// The quantity of `req` after the fee model: sells lose the fee, buys keep it.
pub open spec fn after_fee(config: StrategyConfig, req: OrderRequest) -> int {
    if req.side == Side::Sell {
        fee_adjusted(req.quantity as int, config.fee_rate as int)
    } else {
        req.quantity as int
    }
}

/// Fee model, then normalization, then the minimum-quantity check.
pub open spec fn prepared(config: StrategyConfig, lot: LotSize, req: OrderRequest) -> Result<
    PreparedOrder,
    OrderError,
> {
    match lot_check(lot, after_fee(config, req)) {
        Ok(q) => Ok(PreparedOrder { side: req.side, price: req.price, quantity: q, market: req.market }),
        Err(e) => Err(e),
    }
}

/// Applies the fee model (sells only), normalizes, and refuses a quantity
/// below the minimum, before any outside call is made.
pub fn prepare_order(config: &StrategyConfig, lot: &LotSize, req: OrderRequest) -> (r: Result<
    PreparedOrder,
    OrderError,
>)
    requires
        config.wf(),
        lot.wf(),
    ensures
        r == prepared(*config, *lot, req),
{
    let q = match req.side {
        Side::Sell => apply_fee(req.quantity, config.fee_rate),
        Side::Buy => req.quantity,
    };
    match lot.check(q) {
        Ok(q) => Ok(PreparedOrder { side: req.side, price: req.price, quantity: q, market: req.market }),
        Err(e) => Err(e),
    }
}

/// Every order that passes preparation, and so every trade recorded for it,
/// has a quantity that is a whole number of steps and at least the minimum.
pub proof fn prepared_quantity_fits_lot(config: StrategyConfig, lot: LotSize, req: OrderRequest)
    requires
        config.wf(),
        lot.wf(),
    ensures
        prepared(config, lot, req) matches Ok(p) ==> p.quantity >= lot.min_qty && p.quantity % lot.step_size
            == 0 && p.quantity <= req.quantity,
{
    let q = after_fee(config, req);
    assert(0 <= q <= req.quantity) by {
        if req.side == Side::Sell {
            crate::decimal::fee_within_quantity(req.quantity as int, config.fee_rate as int);
        }
    }
    crate::decimal::normalized_within(q, lot.step_size as int);
}

/// The exchange's name for a side.
pub open spec fn side_text(side: Side) -> Seq<char> {
    match side {
        Side::Buy => "BUY"@,
        Side::Sell => "SELL"@,
    }
}

/// The canonical query string of an order, stamped with `timestamp`: the
/// quantity with six decimals, a limit price rounded to the nearest hundredth.
pub open spec fn order_query_text(symbol: Seq<char>, order: PreparedOrder, timestamp: u64) -> Seq<
    char,
> {
    let head = "symbol="@ + symbol + "&side="@ + side_text(order.side);
    if order.market {
        head + "&type=MARKET&quantity="@ + quantity_text(order.quantity as nat) + "&timestamp="@
            + digits(timestamp as nat)
    } else {
        head + "&type=LIMIT&timeInForce=GTC&quantity="@ + quantity_text(order.quantity as nat)
            + "&price="@ + price_text(order.price as nat) + "&timestamp="@ + digits(
            timestamp as nat,
        )
    }
}

/// The query string of a request that carries only a timestamp.
pub open spec fn timestamp_query_text(timestamp: u64) -> Seq<char> {
    "timestamp="@ + digits(timestamp as nat)
}

/// Builds the canonical query string of an order.
pub fn order_query(symbol: &str, order: &PreparedOrder, timestamp: u64) -> (r: String)
    ensures
        r@ == order_query_text(symbol@, *order, timestamp),
{
    let mut s = String::from_str("symbol=");
    s.append(symbol);
    s.append("&side=");
    match order.side {
        Side::Buy => s.append("BUY"),
        Side::Sell => s.append("SELL"),
    }
    if order.market {
        s.append("&type=MARKET&quantity=");
        s.append(format_quantity(order.quantity).as_str());
    } else {
        s.append("&type=LIMIT&timeInForce=GTC&quantity=");
        s.append(format_quantity(order.quantity).as_str());
        s.append("&price=");
        s.append(format_price(order.price).as_str());
    }
    s.append("&timestamp=");
    s.append(format_integer(timestamp).as_str());
    s
}

/// Builds the query string `timestamp=<ms>` of an account request.
pub fn timestamp_query(timestamp: u64) -> (r: String)
    ensures
        r@ == timestamp_query_text(timestamp),
{
    let mut s = String::from_str("timestamp=");
    s.append(format_integer(timestamp).as_str());
    s
}

/// The query string of a per-symbol account request.
pub open spec fn symbol_query_text(symbol: Seq<char>, timestamp: u64) -> Seq<char> {
    "symbol="@ + symbol + "&timestamp="@ + digits(timestamp as nat)
}

/// Builds the query string `symbol=<symbol>&timestamp=<ms>`.
pub fn symbol_query(symbol: &str, timestamp: u64) -> (r: String)
    ensures
        r@ == symbol_query_text(symbol@, timestamp),
{
    let mut s = String::from_str("symbol=");
    s.append(symbol);
    s.append("&timestamp=");
    s.append(format_integer(timestamp).as_str());
    s
}

/// Where a submission stands.
#[derive(Clone, Copy, Debug)]
pub enum Stage {
    /// A sell waits for the base asset's free balance.
    AwaitBalance(BalanceGuard),
    /// Waiting for the exchange's server time.
    AwaitTime,
    /// The order, stamped with this server time, waits for the exchange's answer.
    AwaitPlacement(u64),
    /// The exchange accepted the order with this id; the ledger write is pending.
    AwaitRecord(u64),
    /// Done: the accepted order id, or why the order was not placed.
    Finished(Result<u64, OrderError>),
}

/// The outside call a submission asks for next.
#[derive(Clone, Copy, Debug)]
pub enum Action {
    /// Wait this many seconds, then query the free balance of the base asset.
    PollBalance(u64),
    /// Fetch the exchange's server time.
    FetchServerTime,
    /// Send the order, with the query built for this timestamp.
    PlaceOrder(u64),
    /// Write the trade with this order id to the ledger.
    RecordTrade(u64),
    /// Nothing more to do.
    Finish(Result<u64, OrderError>),
}

/// Why an order placement did not yield an order id.
#[derive(Clone, Copy, Debug, PartialEq, Eq, Structural)]
pub enum PlaceFailure {
    /// The exchange answered with an error status.
    Refused,
    /// The request did not reach the exchange or its answer was lost.
    Unreachable,
    /// A success answer without a readable order id.
    NoOrderId,
}

/// The order error a placement failure stands for.
pub open spec fn placement_error(f: PlaceFailure) -> OrderError {
    match f {
        PlaceFailure::Refused => OrderError::Rejected,
        PlaceFailure::Unreachable => OrderError::Unreachable,
        PlaceFailure::NoOrderId => OrderError::MalformedAnswer,
    }
}

/// The answer of an outside call.
#[derive(Clone, Copy, Debug)]
pub enum Event {
    /// Free balance of the base asset; `None` when the query failed.
    Balance(Option<u64>),
    /// Server time in milliseconds; `None` when it could not be fetched.
    ServerTime(Option<u64>),
    /// Order id assigned by the exchange, or why there is none.
    Placed(Result<u64, PlaceFailure>),
    /// Whether the ledger write succeeded.
    Recorded(bool),
}

/// The stage a submission of `order` starts in. A sell waits for its balance
/// unless the caller already waited for it (`balance_checked`).
pub open spec fn first_stage(config: StrategyConfig, order: PreparedOrder, balance_checked: bool) -> Stage {
    if order.side == Side::Sell && !balance_checked {
        if config.balance_attempts == 0 {
            Stage::Finished(Err(OrderError::InsufficientBalance))
        } else {
            Stage::AwaitBalance(BalanceGuard {
                min_required: order.quantity,
                max_attempts: config.balance_attempts,
                attempts: 0,
            })
        }
    } else {
        Stage::AwaitTime
    }
}

/// The stage after `event`. An event that does not answer the pending call
/// leaves the stage as it is.
pub open spec fn next_stage(stage: Stage, event: Event) -> Stage {
    match (stage, event) {
        (Stage::AwaitBalance(g), Event::Balance(free)) => match verdict_of(g, free) {
            GuardVerdict::Settled => Stage::AwaitTime,
            GuardVerdict::Retry => Stage::AwaitBalance(counted(g)),
            GuardVerdict::Exhausted => Stage::Finished(Err(OrderError::InsufficientBalance)),
        },
        (Stage::AwaitTime, Event::ServerTime(Some(t))) => Stage::AwaitPlacement(t),
        (Stage::AwaitTime, Event::ServerTime(None)) => Stage::Finished(
            Err(OrderError::ServerTimeUnavailable),
        ),
        (Stage::AwaitPlacement(_), Event::Placed(Ok(id))) => Stage::AwaitRecord(id),
        (Stage::AwaitPlacement(_), Event::Placed(Err(f))) => Stage::Finished(
            Err(placement_error(f)),
        ),
        (Stage::AwaitRecord(id), Event::Recorded(true)) => Stage::Finished(Ok(id)),
        (Stage::AwaitRecord(_), Event::Recorded(false)) => Stage::Finished(
            Err(OrderError::RecordFailed),
        ),
        _ => stage,
    }
}

/// The stage after feeding `events` in order.
pub open spec fn run_stages(stage: Stage, events: Seq<Event>) -> Stage
    decreases events.len(),
{
    if events.len() == 0 {
        stage
    } else {
        run_stages(next_stage(stage, events[0]), events.drop_first())
    }
}

proof fn lemma_finished_stays(r: Result<u64, OrderError>, events: Seq<Event>)
    ensures
        run_stages(Stage::Finished(r), events) == Stage::Finished(r),
    decreases events.len(),
{
    if events.len() > 0 {
        lemma_finished_stays(r, events.drop_first());
    }
}

/// A sell whose balance answers never cover its quantity within the allowed
/// attempts finishes with `InsufficientBalance` and never reaches the
/// placement stage, whatever prefix of those answers has been fed.
pub proof fn uncovered_sell_never_placed(g: BalanceGuard, events: Seq<Event>)
    requires
        g.wf(),
        events.len() >= g.max_attempts - g.attempts,
        forall|i: int|
            0 <= i < events.len() ==> (#[trigger] events[i] matches Event::Balance(free) && !reaches(
                free,
                g.min_required,
            )),
    ensures
        run_stages(Stage::AwaitBalance(g), events) == Stage::Finished(
            Err::<u64, OrderError>(OrderError::InsufficientBalance),
        ),
        forall|k: int|
            0 <= k <= events.len() ==> !(run_stages(Stage::AwaitBalance(g), events.take(k)) is AwaitPlacement),
    decreases g.max_attempts - g.attempts,
{
    let e0 = events[0];
    let rest = events.drop_first();
    let next = next_stage(Stage::AwaitBalance(g), e0);
    assert forall|k: int| 1 <= k <= events.len() implies events.take(k).drop_first() == rest.take(
        k - 1,
    ) && events.take(k)[0] == e0 by {}
    if g.attempts + 1 >= g.max_attempts {
        assert(next == Stage::Finished(Err::<u64, OrderError>(OrderError::InsufficientBalance)));
        lemma_finished_stays(Err(OrderError::InsufficientBalance), rest);
        assert forall|k: int| 0 <= k <= events.len() implies !(run_stages(
            Stage::AwaitBalance(g),
            events.take(k),
        ) is AwaitPlacement) by {
            if k > 0 {
                lemma_finished_stays(Err(OrderError::InsufficientBalance), rest.take(k - 1));
            }
        }
    } else {
        assert(next == Stage::AwaitBalance(counted(g)));
        assert forall|i: int| 0 <= i < rest.len() implies (#[trigger] rest[i] matches Event::Balance(
            free,
        ) && !reaches(free, counted(g).min_required)) by {
            assert(rest[i] == events[i + 1]);
        }
        uncovered_sell_never_placed(counted(g), rest);
        assert forall|k: int| 0 <= k <= events.len() implies !(run_stages(
            Stage::AwaitBalance(g),
            events.take(k),
        ) is AwaitPlacement) by {
            if k > 0 {
                assert(0 <= k - 1 <= rest.len());
            }
        }
    }
}

/// An order whose fee-adjusted, normalized quantity is below the minimum is
/// refused before any outside call: its submission starts finished, asks for
/// nothing but `Finish`, and no answer fed to it can reach the placement or
/// ledger stages.
pub proof fn below_minimum_makes_no_call(
    config: StrategyConfig,
    lot: LotSize,
    req: OrderRequest,
    poll_secs: u64,
    events: Seq<Event>,
)
    requires
        lot.wf(),
        crate::decimal::normalized(after_fee(config, req), lot.step_size as int) < lot.min_qty,
    ensures
        prepared(config, lot, req) == Err::<PreparedOrder, OrderError>(OrderError::BelowMinimum),
        action_of(Stage::Finished(Err(OrderError::BelowMinimum)), poll_secs) == Action::Finish(
            Err(OrderError::BelowMinimum),
        ),
        run_stages(Stage::Finished(Err(OrderError::BelowMinimum)), events) == Stage::Finished(
            Err::<u64, OrderError>(OrderError::BelowMinimum),
        ),
{
    lemma_finished_stays(Err(OrderError::BelowMinimum), events);
}

/// The call a stage asks for; a balance poll waits the poll interval except
/// for the first.
pub open spec fn action_of(stage: Stage, poll_secs: u64) -> Action {
    match stage {
        Stage::AwaitBalance(g) => Action::PollBalance(if g.attempts == 0 { 0 } else { poll_secs }),
        Stage::AwaitTime => Action::FetchServerTime,
        Stage::AwaitPlacement(t) => Action::PlaceOrder(t),
        Stage::AwaitRecord(id) => Action::RecordTrade(id),
        Stage::Finished(r) => Action::Finish(r),
    }
}

/// The stage is consistent: a waiting guard has a query left.
pub open spec fn stage_wf(stage: Stage) -> bool {
    stage matches Stage::AwaitBalance(g) ==> g.wf()
}

/// One order on its way to the exchange.
pub struct Submission {
    pub symbol: String,
    /// Base asset whose balance a sell waits for.
    pub asset: String,
    /// The prepared order; the request as given when preparation refused it.
    pub order: PreparedOrder,
    pub stage: Stage,
    /// Seconds between balance polls.
    pub poll_secs: u64,
}

impl Submission {
    pub open spec fn wf(&self) -> bool {
        stage_wf(self.stage)
    }

    /// Starts the submission of `req` on `symbol`. An order refused by the fee
    /// model, normalization or the minimum-quantity check finishes at once,
    /// without any outside call; a sell first waits for its balance; a buy
    /// first fetches the server time, as does a sell whose balance the caller
    /// has already waited for (`balance_checked`).
    pub fn start(
        config: &StrategyConfig,
        lot: &LotSize,
        symbol: &str,
        req: OrderRequest,
        balance_checked: bool,
    ) -> (r: Submission)
        requires
            config.wf(),
            lot.wf(),
        ensures
            r.wf(),
            r.symbol@ == symbol@,
            r.asset@ == base_asset_of(symbol@),
            r.poll_secs == config.balance_poll_secs,
            match prepared(*config, *lot, req) {
                Ok(p) => r.order == p && r.stage == first_stage(*config, p, balance_checked),
                Err(e) => r.stage == Stage::Finished(Err(e)),
            },
    {
        let asset = extract_base_asset(symbol);
        let symbol = String::from_str(symbol);
        match prepare_order(config, lot, req) {
            Ok(p) => {
                let stage = if p.side == Side::Sell && !balance_checked {
                    if config.balance_attempts == 0 {
                        Stage::Finished(Err(OrderError::InsufficientBalance))
                    } else {
                        Stage::AwaitBalance(BalanceGuard::new(p.quantity, config.balance_attempts))
                    }
                } else {
                    Stage::AwaitTime
                };
                Submission { symbol, asset, order: p, stage, poll_secs: config.balance_poll_secs }
            },
            Err(e) => {
                let order = PreparedOrder {
                    side: req.side,
                    price: req.price,
                    quantity: req.quantity,
                    market: req.market,
                };
                Submission {
                    symbol,
                    asset,
                    order,
                    stage: Stage::Finished(Err(e)),
                    poll_secs: config.balance_poll_secs,
                }
            },
        }
    }

    /// The outside call this submission waits for.
    pub fn action(&self) -> (r: Action)
        ensures
            r == action_of(self.stage, self.poll_secs),
    {
        match self.stage {
            Stage::AwaitBalance(g) => Action::PollBalance(
                if g.attempts == 0 { 0 } else { self.poll_secs },
            ),
            Stage::AwaitTime => Action::FetchServerTime,
            Stage::AwaitPlacement(t) => Action::PlaceOrder(t),
            Stage::AwaitRecord(id) => Action::RecordTrade(id),
            Stage::Finished(r) => Action::Finish(r),
        }
    }

    /// The submission has finished.
    pub fn is_finished(&self) -> (r: bool)
        ensures
            r == (self.stage is Finished),
    {
        match self.stage {
            Stage::Finished(_) => true,
            _ => false,
        }
    }

    /// Feeds the answer of the pending outside call.
    pub fn step(&mut self, event: Event)
        requires
            old(self).wf(),
        ensures
            final(self).wf(),
            final(self).stage == next_stage(old(self).stage, event),
            final(self).symbol == old(self).symbol,
            final(self).asset == old(self).asset,
            final(self).order == old(self).order,
            final(self).poll_secs == old(self).poll_secs,
    {
        let next = match (self.stage, event) {
            (Stage::AwaitBalance(g), Event::Balance(free)) => {
                let mut g2 = g;
                match g2.observe(free) {
                    GuardVerdict::Settled => Stage::AwaitTime,
                    GuardVerdict::Retry => Stage::AwaitBalance(g2),
                    GuardVerdict::Exhausted => Stage::Finished(Err(OrderError::InsufficientBalance)),
                }
            },
            (Stage::AwaitTime, Event::ServerTime(Some(t))) => Stage::AwaitPlacement(t),
            (Stage::AwaitTime, Event::ServerTime(None)) => Stage::Finished(
                Err(OrderError::ServerTimeUnavailable),
            ),
            (Stage::AwaitPlacement(_), Event::Placed(Ok(id))) => Stage::AwaitRecord(id),
            (Stage::AwaitPlacement(_), Event::Placed(Err(f))) => Stage::Finished(
                Err(
                    match f {
                        PlaceFailure::Refused => OrderError::Rejected,
                        PlaceFailure::Unreachable => OrderError::Unreachable,
                        PlaceFailure::NoOrderId => OrderError::MalformedAnswer,
                    },
                ),
            ),
            (Stage::AwaitRecord(id), Event::Recorded(true)) => Stage::Finished(Ok(id)),
            (Stage::AwaitRecord(_), Event::Recorded(false)) => Stage::Finished(
                Err(OrderError::RecordFailed),
            ),
            (s, _) => s,
        };
        self.stage = next;
    }

    /// The query string of this order, stamped with `timestamp`.
    pub fn query(&self, timestamp: u64) -> (r: String)
        ensures
            r@ == order_query_text(self.symbol@, self.order, timestamp),
    {
        order_query(self.symbol.as_str(), &self.order, timestamp)
    }

    /// The ledger row of this order once the exchange accepted it as `order_id`.
    pub fn trade(&self, order_id: u64) -> (r: Trade)
        ensures
            r.symbol@ == self.symbol@,
            r.side == self.order.side,
            r.price == self.order.price,
            r.quantity == self.order.quantity,
            r.order_id == order_id,
            r.profit is None,
    {
        Trade {
            symbol: self.symbol.clone(),
            side: self.order.side,
            price: self.order.price,
            quantity: self.order.quantity,
            order_id,
            profit: None,
        }
    }
}

} // verus!
