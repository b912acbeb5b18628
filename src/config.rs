//! Strategy constants, gathered in one structure.

use vstd::prelude::*;
use crate::decimal::SCALE;

verus! {

/// All strategy parameters. Rates and offsets are in `1 / SCALE` units
/// (`5_000_000` is 5%); amounts are fixed-point values.
#[derive(Clone, Debug)]
pub struct StrategyConfig {
    /// Value of each ladder order, in quote-asset units.
    pub order_notional: u64,
    /// Proportional trading fee taken off every sell quantity.
    pub fee_rate: u64,
    /// Offsets of the sells paired with the initial buys (one per initial buy).
    pub sell_offsets: Vec<i64>,
    /// Offsets of the standalone buys below the current price.
    pub buy_offsets: Vec<i64>,
    /// Number of initial buys at the current price.
    pub initial_buys: usize,
    /// Target gain added to recycled capital: `profit = value * (1 + margin)`.
    pub reinvest_margin: u64,
    /// Discount from a filled sell's price at which proceeds are bought back.
    pub rebuy_discount: u64,
    /// Markup over the rebuy price of the sell paired with a reinvestment buy.
    pub resell_markup: u64,
    /// How many times the free balance is polled before a sell is abandoned.
    pub balance_attempts: u32,
    /// Seconds between balance polls.
    pub balance_poll_secs: u64,
    /// Seconds the reinvestment monitor sleeps between passes.
    pub monitor_interval_secs: u64,
}

impl StrategyConfig {
    /// Parameters that keep every price computation meaningful.
    pub open spec fn wf(&self) -> bool {
        &&& self.fee_rate <= SCALE
        &&& self.rebuy_discount < SCALE
        &&& self.reinvest_margin <= u64::MAX - SCALE
        &&& self.resell_markup <= u64::MAX - SCALE
        &&& self.initial_buys == self.sell_offsets@.len()
        &&& forall|i: int| 0 <= i < self.sell_offsets@.len() ==> self.sell_offsets@[i] > -(SCALE as int)
        &&& forall|i: int| 0 <= i < self.buy_offsets@.len() ==> self.buy_offsets@[i] > -(SCALE as int)
    }

    /// The standard grid: orders worth 10, a 0.1% fee, three initial buys with
    /// sells at +5%, +10% and +15%, standalone buys at -5% and -10%, a 5%
    /// reinvestment margin, rebuy discount and resell markup, five balance
    /// polls two seconds apart and a sixty-second monitor interval.
    pub fn standard() -> (r: StrategyConfig)
        ensures
            r.wf(),
            r.order_notional == 10 * SCALE,
            r.fee_rate == 100_000,
            r.sell_offsets@ == seq![5_000_000i64, 10_000_000i64, 15_000_000i64],
            r.buy_offsets@ == seq![-5_000_000i64, -10_000_000i64],
            r.initial_buys == 3,
            r.reinvest_margin == 5_000_000,
            r.rebuy_discount == 5_000_000,
            r.resell_markup == 5_000_000,
            r.balance_attempts == 5,
            r.balance_poll_secs == 2,
            r.monitor_interval_secs == 60,
    {
        let sell_offsets: Vec<i64> = vec![5_000_000i64, 10_000_000i64, 15_000_000i64];
        let buy_offsets: Vec<i64> = vec![-5_000_000i64, -10_000_000i64];
        let r = StrategyConfig {
            order_notional: 10 * SCALE,
            fee_rate: 100_000,
            sell_offsets,
            buy_offsets,
            initial_buys: 3,
            reinvest_margin: 5_000_000,
            rebuy_discount: 5_000_000,
            resell_markup: 5_000_000,
            balance_attempts: 5,
            balance_poll_secs: 2,
            monitor_interval_secs: 60,
        };
        assert(r.sell_offsets@ == seq![5_000_000i64, 10_000_000i64, 15_000_000i64]);
        assert(r.buy_offsets@ == seq![-5_000_000i64, -10_000_000i64]);
        r
    }
}

} // verus!
