//! Reinvestment monitor: picks the filled sells that the ledger has not seen,
//! and turns each into a rebuy below the sell price plus a paired resell.

use vstd::prelude::*;
use crate::config::StrategyConfig;
use crate::decimal::{mul_div, normalize, normalized, notional_of, quantity_for, scaled, SCALE};
use crate::lot::LotSize;
use crate::order::{contains_id, OrderError, OrderRequest, Side, Trade};
use crate::plan::{steps_wf, PlannedOrder};
use crate::text::text_equals;

verus! {

/// An order as listed by the exchange, with its numbers in fixed point.
#[derive(Clone, Debug)]
pub struct ExchangeOrder {
    pub order_id: u64,
    pub symbol: String,
    /// `BUY` or `SELL`.
    pub side: String,
    /// `NEW`, `FILLED`, `CANCELED`, ...
    pub status: String,
    pub price: u64,
    pub executed_qty: u64,
}

/// A filled sell order awaiting reinvestment.
#[derive(Clone, Debug)]
pub struct FilledSell {
    pub order_id: u64,
    pub symbol: String,
    pub price: u64,
    pub quantity: u64,
}

/// The order is a sell that the exchange reports as filled.
pub open spec fn is_filled_sell(o: ExchangeOrder) -> bool {
    o.status@ == "FILLED"@ && o.side@ == "SELL"@
}

/// The fill that a filled sell order stands for.
pub open spec fn fill_of(o: ExchangeOrder) -> FilledSell {
    FilledSell { order_id: o.order_id, symbol: o.symbol, price: o.price, quantity: o.executed_qty }
}

/// The filled sells among `orders`, in fetch order, whose order id is not in
/// the ledger ids `recorded`.
pub open spec fn unprocessed(orders: Seq<ExchangeOrder>, recorded: Seq<u64>) -> Seq<FilledSell>
    decreases orders.len(),
{
    if orders.len() == 0 {
        seq![]
    } else {
        let o = orders.last();
        unprocessed(orders.drop_last(), recorded) + if is_filled_sell(o) && !recorded.contains(
            o.order_id,
        ) {
            seq![fill_of(o)]
        } else {
            seq![]
        }
    }
}

/// The filled sells of a fetch that are not yet in the ledger, in fetch order.
pub fn select_unprocessed(orders: &Vec<ExchangeOrder>, recorded: &Vec<u64>) -> (r: Vec<FilledSell>)
    ensures
        r@ == unprocessed(orders@, recorded@),
{
    let mut r: Vec<FilledSell> = Vec::new();
    let mut i: usize = 0;
    while i < orders.len()
        invariant
            i <= orders@.len(),
            r@ == unprocessed(orders@.take(i as int), recorded@),
        decreases orders@.len() - i,
    {
        let o = &orders[i];
        assert(orders@.take(i + 1).drop_last() == orders@.take(i as int));
        assert(orders@.take(i + 1).last() == orders@[i as int]);
        if text_equals(o.status.as_str(), "FILLED") && text_equals(o.side.as_str(), "SELL")
            && !contains_id(recorded, o.order_id) {
            r.push(FilledSell {
                order_id: o.order_id,
                symbol: o.symbol.clone(),
                price: o.price,
                quantity: o.executed_qty,
            });
        }
        i = i + 1;
    }
    assert(orders@.take(orders@.len() as int) == orders@);
    r
}

proof fn lemma_unprocessed_members(orders: Seq<ExchangeOrder>, recorded: Seq<u64>)
    ensures
        forall|i: int|
            0 <= i < unprocessed(orders, recorded).len() ==> !recorded.contains(
                #[trigger] unprocessed(orders, recorded)[i].order_id,
            ),
    decreases orders.len(),
{
    if orders.len() > 0 {
        let prev = orders.drop_last();
        lemma_unprocessed_members(prev, recorded);
        let all = unprocessed(orders, recorded);
        let head = unprocessed(prev, recorded);
        assert forall|i: int| 0 <= i < all.len() implies !recorded.contains(
            #[trigger] all[i].order_id,
        ) by {
            if i < head.len() {
                assert(all[i] == head[i]);
            } else {
                assert(all[i] == fill_of(orders.last()));
            }
        }
    }
}

/// A filled sell whose order id is already in the ledger is never selected,
/// so a fill recorded after one pass is not reprocessed on any later pass.
pub proof fn recorded_fill_not_reprocessed(orders: Seq<ExchangeOrder>, recorded: Seq<u64>, id: u64)
    requires
        recorded.contains(id),
    ensures
        forall|i: int|
            0 <= i < unprocessed(orders, recorded).len() ==> #[trigger] unprocessed(
                orders,
                recorded,
            )[i].order_id != id,
{
    lemma_unprocessed_members(orders, recorded);
}

/// What a fill is reinvested into.
#[derive(Clone, Copy, Debug, PartialEq, Eq, Structural)]
pub struct Reinvestment {
    /// Limit buy below the fill price.
    pub buy: OrderRequest,
    /// Limit sell paired with the buy.
    pub sell: OrderRequest,
    /// `price * quantity * (1 + margin)` of the fill.
    pub profit: u64,
    /// Value of the fill, credited back to the pair's capital.
    pub recycled: u64,
}

/// The reinvestment of a fill of `quantity` at `price`, or why there is none.
pub open spec fn reinvestment_of(config: StrategyConfig, lot: LotSize, price: u64, quantity: u64) -> Result<
    Reinvestment,
    OrderError,
> {
    let value = notional_of(price as int, quantity as int);
    let profit = scaled(value, SCALE + config.reinvest_margin, SCALE as int);
    let capital = value + profit;
    let rebuy = scaled(price as int, SCALE - config.rebuy_discount, SCALE as int);
    let raw = quantity_for(capital, rebuy);
    let q = normalized(raw, lot.step_size as int);
    let resell = scaled(rebuy, SCALE + config.resell_markup, SCALE as int);
    if value > u64::MAX || profit > u64::MAX || capital > u64::MAX {
        Err(OrderError::OutOfRange)
    } else if rebuy == 0 {
        Err(OrderError::InvalidPrice)
    } else if raw > u64::MAX {
        Err(OrderError::OutOfRange)
    } else if q < lot.min_qty {
        Err(OrderError::BelowMinimum)
    } else if resell > u64::MAX {
        Err(OrderError::OutOfRange)
    } else {
        Ok(Reinvestment {
            buy: OrderRequest { side: Side::Buy, price: rebuy as u64, quantity: q as u64, market: false },
            sell: OrderRequest {
                side: Side::Sell,
                price: resell as u64,
                quantity: q as u64,
                market: false,
            },
            profit: profit as u64,
            recycled: value as u64,
        })
    }
}

/// Computes the reinvestment of a fill: the profit `value * (1 + margin)`,
/// the capital `value + profit`, a rebuy at the fill price less the rebuy
/// discount for as much of that capital as the lot size allows, and a resell
/// at the rebuy price plus the resell markup. A rebuy below the minimum
/// quantity is refused.
pub fn plan_reinvestment(config: &StrategyConfig, lot: &LotSize, fill: &FilledSell) -> (r: Result<
    Reinvestment,
    OrderError,
>)
    requires
        config.wf(),
        lot.wf(),
    ensures
        r == reinvestment_of(*config, *lot, fill.price, fill.quantity),
{
    let value = match mul_div(fill.price, fill.quantity, SCALE) {
        Some(v) => v,
        None => return Err(OrderError::OutOfRange),
    };
    let profit = match mul_div(value, SCALE + config.reinvest_margin, SCALE) {
        Some(p) => p,
        None => return Err(OrderError::OutOfRange),
    };
    if profit > u64::MAX - value {
        return Err(OrderError::OutOfRange);
    }
    let capital = value + profit;
    proof {
        assert(fill.price as int * (SCALE - config.rebuy_discount) <= fill.price as int * SCALE)
            by (nonlinear_arith)
            requires
                config.rebuy_discount < SCALE,
        ;
        vstd::arithmetic::div_mod::lemma_div_is_ordered(
            fill.price as int * (SCALE - config.rebuy_discount),
            fill.price as int * SCALE,
            SCALE as int,
        );
        vstd::arithmetic::div_mod::lemma_div_multiples_vanish(fill.price as int, SCALE as int);
        assert(fill.price as int * SCALE == SCALE * fill.price as int) by (nonlinear_arith);
    }
    let rebuy = match mul_div(fill.price, SCALE - config.rebuy_discount, SCALE) {
        Some(p) => p,
        None => return Err(OrderError::OutOfRange),
    };
    if rebuy == 0 {
        return Err(OrderError::InvalidPrice);
    }
    let raw = match mul_div(capital, SCALE, rebuy) {
        Some(q) => q,
        None => return Err(OrderError::OutOfRange),
    };
    let q = normalize(raw, lot.step_size);
    if q < lot.min_qty {
        return Err(OrderError::BelowMinimum);
    }
    let resell = match mul_div(rebuy, SCALE + config.resell_markup, SCALE) {
        Some(p) => p,
        None => return Err(OrderError::OutOfRange),
    };
    Ok(Reinvestment {
        buy: OrderRequest { side: Side::Buy, price: rebuy, quantity: q, market: false },
        sell: OrderRequest { side: Side::Sell, price: resell, quantity: q, market: false },
        profit,
        recycled: value,
    })
}

/// The steps of a reinvestment: the rebuy, then the resell once the rebuy is
/// accepted.
pub fn reinvestment_steps(r: &Reinvestment) -> (steps: Vec<PlannedOrder>)
    ensures
        steps@ == seq![
            PlannedOrder { request: r.buy, after: None, gated: false },
            PlannedOrder { request: r.sell, after: Some(0usize), gated: false },
        ],
        steps_wf(steps@),
{
    let mut steps: Vec<PlannedOrder> = Vec::new();
    steps.push(PlannedOrder { request: r.buy, after: None, gated: false });
    steps.push(PlannedOrder { request: r.sell, after: Some(0), gated: false });
    steps
}

/// The ledger row that marks a fill as reinvested, carrying its profit.
pub fn fill_trade(fill: &FilledSell, r: &Reinvestment) -> (t: Trade)
    ensures
        t.symbol == fill.symbol,
        t.side == Side::Sell,
        t.price == fill.price,
        t.quantity == fill.quantity,
        t.order_id == fill.order_id,
        t.profit == Some(r.profit),
{
    Trade {
        symbol: fill.symbol.clone(),
        side: Side::Sell,
        price: fill.price,
        quantity: fill.quantity,
        order_id: fill.order_id,
        profit: Some(r.profit),
    }
}

/// The bookkeeping of a reinvested fill once its rebuy was accepted.
#[derive(Clone, Debug)]
pub struct Settlement {
    /// Capital credited back to the pair: the fill's value.
    pub credit: u64,
    /// Ledger row that marks the fill as reinvested.
    pub record: Trade,
}

/// The bookkeeping owed for a fill: its value credited and the fill recorded
/// when the rebuy was accepted; nothing when it was not.
pub fn settle_fill(fill: &FilledSell, r: &Reinvestment, buy_outcome: Result<u64, OrderError>) -> (s:
    Option<Settlement>)
    ensures
        buy_outcome is Err ==> s is None,
        buy_outcome is Ok ==> (s matches Some(st) && st.credit == r.recycled && st.record.symbol
            == fill.symbol && st.record.side == Side::Sell && st.record.price == fill.price
            && st.record.quantity == fill.quantity && st.record.order_id == fill.order_id
            && st.record.profit == Some(r.profit)),
{
    match buy_outcome {
        Ok(_) => Some(Settlement { credit: r.recycled, record: fill_trade(fill, r) }),
        Err(_) => None,
    }
}

} // verus!
