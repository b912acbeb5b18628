use grid_engine::config::StrategyConfig;
use grid_engine::decimal::SCALE;
use grid_engine::ladder::build_ladder;
use grid_engine::lot::LotSize;
use grid_engine::order::{OrderError, OrderRequest, Side};
use grid_engine::balance::BalanceGuard;
use grid_engine::plan::{launch_steps, OrderPlan, PlanAction, Wait};

const CENT: u64 = 1_000_000;

fn buy(price: u64, quantity: u64, market: bool) -> OrderRequest {
    OrderRequest { side: Side::Buy, price, quantity, market }
}

fn sell(price: u64, quantity: u64) -> OrderRequest {
    OrderRequest { side: Side::Sell, price, quantity, market: false }
}

#[test]
fn ladder_around_one_hundred() {
    let config = StrategyConfig::standard();
    let lot = LotSize::new(CENT, CENT).unwrap();
    let ladder = build_ladder(&config, 100 * SCALE, &lot).unwrap();
    assert_eq!(ladder.initial_buys.len(), 3);
    assert_eq!(ladder.paired_sells.len(), 3);
    for b in &ladder.initial_buys {
        assert_eq!(*b, buy(100 * SCALE, 10 * CENT, true));
    }
    let prices: Vec<u64> = ladder.paired_sells.iter().map(|s| s.price).collect();
    assert_eq!(prices, vec![105 * SCALE, 110 * SCALE, 115 * SCALE]);
    assert_eq!(ladder.extra_buys, vec![buy(95 * SCALE, 10 * CENT, false), buy(90 * SCALE, 11 * CENT, false)]);
}

#[test]
fn ladder_ltcusdc_scenario() {
    let config = StrategyConfig::standard();
    let lot = LotSize::new(CENT, CENT).unwrap();
    let ladder = build_ladder(&config, 80 * SCALE, &lot).unwrap();
    assert_eq!(ladder.initial_buys, vec![buy(80 * SCALE, 12 * CENT, true); 3]);
    assert_eq!(
        ladder.paired_sells,
        vec![sell(84 * SCALE, 12 * CENT), sell(88 * SCALE, 12 * CENT), sell(92 * SCALE, 12 * CENT)]
    );
    assert_eq!(ladder.extra_buys, vec![buy(76 * SCALE, 13 * CENT, false), buy(72 * SCALE, 13 * CENT, false)]);
}

#[test]
fn ladder_skips_rungs_below_minimum() {
    let config = StrategyConfig::standard();
    // both standalone buys normalize to 0.13, below a minimum of 0.14
    let lot = LotSize::new(14 * CENT, CENT).unwrap();
    let ladder = build_ladder(&config, 80 * SCALE, &lot).unwrap();
    assert!(ladder.extra_buys.is_empty());
    assert_eq!(ladder.initial_buys.len(), 3);
}

#[test]
fn ladder_refuses_bad_prices() {
    let config = StrategyConfig::standard();
    let lot = LotSize::fallback();
    assert_eq!(build_ladder(&config, 0, &lot).err(), Some(OrderError::InvalidPrice));
    assert_eq!(build_ladder(&config, u64::MAX, &lot).err(), Some(OrderError::OutOfRange));
    // at the smallest price the standalone buys round to a zero price and are skipped
    let tiny = build_ladder(&config, 1, &lot).unwrap();
    assert!(tiny.extra_buys.is_empty());
}

#[test]
fn launch_plan_skips_sell_of_failed_buy_and_waits_once() {
    let config = StrategyConfig::standard();
    let lot = LotSize::new(CENT, CENT).unwrap();
    let ladder = build_ladder(&config, 80 * SCALE, &lot).unwrap();
    let steps = launch_steps(&ladder);
    assert_eq!(steps.len(), 8);
    assert_eq!(steps[3].after, Some(0));
    assert!(steps[3].gated);
    assert_eq!(steps[5].after, Some(2));
    assert_eq!(steps[6].after, None);
    assert!(!steps[6].gated);
    let mut plan = OrderPlan::new(steps, &config, &lot);
    assert_eq!(plan.action(&config), PlanAction::Send(buy(80 * SCALE, 12 * CENT, true), false));
    plan.record(&config, &lot, Err(OrderError::Rejected));
    plan.record(&config, &lot, Ok(11));
    plan.record(&config, &lot, Ok(12));
    // the sell paired with the rejected buy is skipped without a call
    assert_eq!(plan.outcomes.len(), 4);
    assert_eq!(plan.outcomes[3], Err(OrderError::PairNotBought));
    // one wait for both remaining sells: 0.12 less the fee is 0.11 each
    assert_eq!(plan.wait, Wait::Polling(BalanceGuard { min_required: 22 * CENT, max_attempts: 5, attempts: 0 }));
    let mut polls = 0;
    assert_eq!(plan.action(&config), PlanAction::PollBalance(0));
    polls += 1;
    plan.observe_balance(&config, &lot, Some(21 * CENT));
    assert_eq!(plan.action(&config), PlanAction::PollBalance(2));
    polls += 1;
    plan.observe_balance(&config, &lot, Some(22 * CENT));
    assert_eq!(plan.wait, Wait::Settled);
    // after the wait settled the sells go out without further polls
    assert_eq!(plan.action(&config), PlanAction::Send(sell(88 * SCALE, 12 * CENT), true));
    plan.record(&config, &lot, Ok(21));
    assert_eq!(plan.action(&config), PlanAction::Send(sell(92 * SCALE, 12 * CENT), true));
    plan.record(&config, &lot, Ok(22));
    assert_eq!(plan.action(&config), PlanAction::Send(buy(76 * SCALE, 13 * CENT, false), false));
    plan.record(&config, &lot, Ok(31));
    plan.record(&config, &lot, Err(OrderError::BelowMinimum));
    assert_eq!(plan.action(&config), PlanAction::Done);
    assert_eq!(plan.outcomes.len(), 8);
    assert_eq!(polls, 2);
}

#[test]
fn failed_balance_wait_aborts_the_sell_sequence() {
    let config = StrategyConfig::standard();
    let lot = LotSize::new(CENT, CENT).unwrap();
    let ladder = build_ladder(&config, 80 * SCALE, &lot).unwrap();
    let mut plan = OrderPlan::new(launch_steps(&ladder), &config, &lot);
    plan.record(&config, &lot, Ok(1));
    plan.record(&config, &lot, Ok(2));
    plan.record(&config, &lot, Ok(3));
    assert_eq!(plan.wait, Wait::Polling(BalanceGuard { min_required: 33 * CENT, max_attempts: 5, attempts: 0 }));
    let mut polls = 0;
    while let PlanAction::PollBalance(_) = plan.action(&config) {
        polls += 1;
        plan.observe_balance(&config, &lot, Some(32 * CENT));
    }
    assert_eq!(polls, 5);
    assert_eq!(plan.wait, Wait::Failed);
    assert_eq!(
        &plan.outcomes[3..6],
        &[Err(OrderError::InsufficientBalance), Err(OrderError::InsufficientBalance), Err(OrderError::InsufficientBalance)]
    );
    // the standalone buys still go out, never a sell
    assert_eq!(plan.action(&config), PlanAction::Send(buy(76 * SCALE, 13 * CENT, false), false));
    plan.record(&config, &lot, Ok(4));
    assert_eq!(plan.action(&config), PlanAction::Send(buy(72 * SCALE, 13 * CENT, false), false));
    plan.record(&config, &lot, Ok(5));
    assert_eq!(plan.action(&config), PlanAction::Done);
}
