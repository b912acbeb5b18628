//! Grid ladder construction around a current price.

use vstd::prelude::*;
use crate::config::StrategyConfig;
use crate::decimal::{
    apply_offset, normalize, normalized, offset_price, quantity_for, quantity_for_notional,
};
use crate::lot::LotSize;
use crate::order::{OrderError, OrderRequest, Side};

verus! {

/// A fixed-shape ladder: initial buys at the current price, one sell paired with
/// each initial buy, and standalone buys below the current price.
#[derive(Clone, Debug)]
pub struct Ladder {
    pub initial_buys: Vec<OrderRequest>,
    pub paired_sells: Vec<OrderRequest>,
    pub extra_buys: Vec<OrderRequest>,
}

/// Normalized quantity that the configured notional buys at `price`.
pub open spec fn rung_quantity(config: StrategyConfig, lot: LotSize, price: int) -> int {
    normalized(quantity_for(config.order_notional as int, price), lot.step_size as int)
}

/// Every price and quantity of the ladder fits the fixed-point range.
pub open spec fn ladder_fits(config: StrategyConfig, price: u64) -> bool {
    &&& quantity_for(config.order_notional as int, price as int) <= u64::MAX
    &&& forall|i: int|
        0 <= i < config.sell_offsets@.len() ==> offset_price(
            price as int,
            config.sell_offsets@[i] as int,
        ) <= u64::MAX
    &&& forall|j: int|
        0 <= j < config.buy_offsets@.len() ==> extra_fits(config, price, config.buy_offsets@[j])
}

/// The standalone buy at `offset` has a price and a quantity in range.
pub open spec fn extra_fits(config: StrategyConfig, price: u64, offset: i64) -> bool {
    let p = offset_price(price as int, offset as int);
    &&& p <= u64::MAX
    &&& p > 0 ==> quantity_for(config.order_notional as int, p) <= u64::MAX
}

/// The standalone buy at `offset`: empty when its price is zero or its
/// normalized quantity is below the minimum (the rung is skipped).
pub open spec fn extra_rung(
    config: StrategyConfig,
    price: u64,
    lot: LotSize,
    offset: i64,
) -> Seq<OrderRequest> {
    let p = offset_price(price as int, offset as int);
    let q = rung_quantity(config, lot, p);
    if p == 0 || q < lot.min_qty {
        seq![]
    } else {
        seq![OrderRequest { side: Side::Buy, price: p as u64, quantity: q as u64, market: false }]
    }
}

/// The standalone buys for `offsets`, in order, skipped rungs left out.
pub open spec fn extra_rungs(
    config: StrategyConfig,
    price: u64,
    lot: LotSize,
    offsets: Seq<i64>,
) -> Seq<OrderRequest>
    decreases offsets.len(),
{
    if offsets.len() == 0 {
        seq![]
    } else {
        extra_rungs(config, price, lot, offsets.drop_last()) + extra_rung(
            config,
            price,
            lot,
            offsets.last(),
        )
    }
}

/// The ladder that `build_ladder` produces for a positive price whose
/// computations fit the fixed-point range.
pub open spec fn ladder_matches(
    ladder: Ladder,
    config: StrategyConfig,
    price: u64,
    lot: LotSize,
) -> bool {
    let q = rung_quantity(config, lot, price as int);
    &&& ladder.initial_buys@.len() == config.initial_buys
    &&& forall|i: int|
        0 <= i < ladder.initial_buys@.len() ==> ladder.initial_buys@[i] == (OrderRequest {
            side: Side::Buy,
            price,
            quantity: q as u64,
            market: true,
        })
    &&& ladder.paired_sells@.len() == config.sell_offsets@.len()
    &&& forall|i: int|
        0 <= i < ladder.paired_sells@.len() ==> ladder.paired_sells@[i] == (OrderRequest {
            side: Side::Sell,
            price: offset_price(price as int, config.sell_offsets@[i] as int) as u64,
            quantity: q as u64,
            market: false,
        })
    &&& ladder.extra_buys@ == extra_rungs(config, price, lot, config.buy_offsets@)
}

/// The standalone buy at `offset`, `None` when the rung is skipped.
fn extra_buy(config: &StrategyConfig, price: u64, lot: &LotSize, offset: i64) -> (r: Result<
    Option<OrderRequest>,
    OrderError,
>)
    requires
        lot.wf(),
        offset > -(crate::decimal::SCALE as int),
    ensures
        r is Ok <==> extra_fits(*config, price, offset),
        r matches Ok(o) ==> (match o {
            Some(req) => extra_rung(*config, price, *lot, offset) == seq![req],
            None => extra_rung(*config, price, *lot, offset) == Seq::<OrderRequest>::empty(),
        }),
        r matches Err(e) ==> e == OrderError::OutOfRange,
{
    let p = match apply_offset(price, offset) {
        Some(p) => p,
        None => return Err(OrderError::OutOfRange),
    };
    if p == 0 {
        return Ok(None);
    }
    let raw = match quantity_for_notional(config.order_notional, p) {
        Some(q) => q,
        None => return Err(OrderError::OutOfRange),
    };
    let q = normalize(raw, lot.step_size);
    if q < lot.min_qty {
        Ok(None)
    } else {
        Ok(Some(OrderRequest { side: Side::Buy, price: p, quantity: q, market: false }))
    }
}

/// Builds the ladder for `current_price`. Initial buys are market orders for
/// the configured notional at the current price; each paired sell has the same
/// quantity at the current price moved by its sell offset; standalone buys
/// below the minimum quantity are skipped.
pub fn build_ladder(config: &StrategyConfig, current_price: u64, lot: &LotSize) -> (r: Result<
    Ladder,
    OrderError,
>)
    requires
        config.wf(),
        lot.wf(),
    ensures
        current_price == 0 ==> r == Err::<Ladder, OrderError>(OrderError::InvalidPrice),
        current_price > 0 ==> (r is Ok <==> ladder_fits(*config, current_price)),
        current_price > 0 && !ladder_fits(*config, current_price) ==> r == Err::<
            Ladder,
            OrderError,
        >(OrderError::OutOfRange),
        r matches Ok(l) ==> ladder_matches(l, *config, current_price, *lot),
{
    if current_price == 0 {
        return Err(OrderError::InvalidPrice);
    }
    let raw = match quantity_for_notional(config.order_notional, current_price) {
        Some(q) => q,
        None => return Err(OrderError::OutOfRange),
    };
    let q = normalize(raw, lot.step_size);
    let buy = OrderRequest { side: Side::Buy, price: current_price, quantity: q, market: true };

    let mut initial_buys: Vec<OrderRequest> = Vec::new();
    let mut i: usize = 0;
    while i < config.initial_buys
        invariant
            i <= config.initial_buys,
            initial_buys@.len() == i,
            forall|k: int| 0 <= k < i ==> initial_buys@[k] == buy,
        decreases config.initial_buys - i,
    {
        initial_buys.push(buy);
        i = i + 1;
    }

    let mut paired_sells: Vec<OrderRequest> = Vec::new();
    let mut i: usize = 0;
    while i < config.sell_offsets.len()
        invariant
            config.wf(),
            current_price > 0,
            i <= config.sell_offsets@.len(),
            paired_sells@.len() == i,
            forall|k: int|
                0 <= k < i ==> offset_price(current_price as int, config.sell_offsets@[k] as int)
                    <= u64::MAX,
            forall|k: int|
                0 <= k < i ==> paired_sells@[k] == (OrderRequest {
                    side: Side::Sell,
                    price: offset_price(current_price as int, config.sell_offsets@[k] as int)
                        as u64,
                    quantity: q,
                    market: false,
                }),
        decreases config.sell_offsets@.len() - i,
    {
        let off = config.sell_offsets[i];
        let p = match apply_offset(current_price, off) {
            Some(p) => p,
            None => return Err(OrderError::OutOfRange),
        };
        paired_sells.push(OrderRequest { side: Side::Sell, price: p, quantity: q, market: false });
        i = i + 1;
    }

    let mut extra_buys: Vec<OrderRequest> = Vec::new();
    let mut j: usize = 0;
    while j < config.buy_offsets.len()
        invariant
            config.wf(),
            lot.wf(),
            current_price > 0,
            j <= config.buy_offsets@.len(),
            forall|k: int|
                0 <= k < j ==> extra_fits(*config, current_price, config.buy_offsets@[k]),
            extra_buys@ == extra_rungs(
                *config,
                current_price,
                *lot,
                config.buy_offsets@.take(j as int),
            ),
        decreases config.buy_offsets@.len() - j,
    {
        let off = config.buy_offsets[j];
        assert(config.buy_offsets@.take(j + 1).drop_last() == config.buy_offsets@.take(j as int));
        match extra_buy(config, current_price, lot, off) {
            Ok(Some(req)) => extra_buys.push(req),
            Ok(None) => {},
            Err(e) => return Err(e),
        }
        j = j + 1;
    }
    assert(config.buy_offsets@.take(config.buy_offsets@.len() as int) == config.buy_offsets@);
    Ok(Ladder { initial_buys, paired_sells, extra_buys })
}

} // verus!
