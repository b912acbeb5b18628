use grid_engine::balance::{BalanceGuard, GuardVerdict};
use grid_engine::config::StrategyConfig;
use grid_engine::decimal::SCALE;
use grid_engine::lot::LotSize;
use grid_engine::order::{OrderError, OrderRequest, Side};
use grid_engine::submit::{prepare_order, Action, Event, PlaceFailure, Stage, Submission};

const CENT: u64 = 1_000_000;

fn sell_request() -> OrderRequest {
    OrderRequest { side: Side::Sell, price: 84 * SCALE, quantity: 12 * CENT, market: false }
}

#[test]
fn prepare_applies_fee_then_normalizes() {
    let config = StrategyConfig::standard();
    let lot = LotSize::new(CENT, CENT).unwrap();
    let p = prepare_order(&config, &lot, sell_request()).unwrap();
    assert_eq!(p.quantity, 11 * CENT);
    let b = OrderRequest { side: Side::Buy, price: 80 * SCALE, quantity: 12_500_000, market: true };
    assert_eq!(prepare_order(&config, &lot, b).unwrap().quantity, 12 * CENT);
    let tiny = OrderRequest { side: Side::Buy, price: 80 * SCALE, quantity: 999_999, market: false };
    assert_eq!(prepare_order(&config, &lot, tiny), Err(OrderError::BelowMinimum));
}

#[test]
fn below_minimum_makes_no_call() {
    let config = StrategyConfig::standard();
    let lot = LotSize::new(20 * CENT, CENT).unwrap();
    let sub = Submission::start(&config, &lot, "LTCUSDC", sell_request(), false);
    assert!(sub.is_finished());
    assert!(matches!(sub.action(), Action::Finish(Err(OrderError::BelowMinimum))));
}

#[test]
fn buy_runs_to_recorded_trade() {
    let config = StrategyConfig::standard();
    let lot = LotSize::new(CENT, CENT).unwrap();
    let req = OrderRequest { side: Side::Buy, price: 80 * SCALE, quantity: 12 * CENT, market: true };
    let mut sub = Submission::start(&config, &lot, "LTCUSDC", req, false);
    assert_eq!(sub.asset, "LTC");
    assert!(matches!(sub.action(), Action::FetchServerTime));
    sub.step(Event::ServerTime(Some(1700000000000)));
    assert!(matches!(sub.action(), Action::PlaceOrder(1700000000000)));
    assert_eq!(
        sub.query(1700000000000),
        "symbol=LTCUSDC&side=BUY&type=MARKET&quantity=0.120000&timestamp=1700000000000"
    );
    sub.step(Event::Placed(Ok(42)));
    assert!(matches!(sub.action(), Action::RecordTrade(42)));
    let t = sub.trade(42);
    assert_eq!(t.order_id, 42);
    assert_eq!(t.quantity, 12 * CENT);
    assert_eq!(t.symbol, "LTCUSDC");
    sub.step(Event::Recorded(true));
    assert!(matches!(sub.action(), Action::Finish(Ok(42))));
}

#[test]
fn failures_of_each_call() {
    let config = StrategyConfig::standard();
    let lot = LotSize::new(CENT, CENT).unwrap();
    let req = OrderRequest { side: Side::Buy, price: 80 * SCALE, quantity: 12 * CENT, market: false };
    let mut a = Submission::start(&config, &lot, "LTCUSDC", req, false);
    a.step(Event::ServerTime(None));
    assert!(matches!(a.stage, Stage::Finished(Err(OrderError::ServerTimeUnavailable))));
    let mut b = Submission::start(&config, &lot, "LTCUSDC", req, false);
    b.step(Event::ServerTime(Some(1)));
    b.step(Event::Placed(Err(PlaceFailure::Refused)));
    assert!(matches!(b.stage, Stage::Finished(Err(OrderError::Rejected))));
    let mut u = Submission::start(&config, &lot, "LTCUSDC", req, false);
    u.step(Event::ServerTime(Some(1)));
    u.step(Event::Placed(Err(PlaceFailure::Unreachable)));
    assert!(matches!(u.stage, Stage::Finished(Err(OrderError::Unreachable))));
    let mut m = Submission::start(&config, &lot, "LTCUSDC", req, false);
    m.step(Event::ServerTime(Some(1)));
    m.step(Event::Placed(Err(PlaceFailure::NoOrderId)));
    assert!(matches!(m.stage, Stage::Finished(Err(OrderError::MalformedAnswer))));
    let mut c = Submission::start(&config, &lot, "LTCUSDC", req, false);
    c.step(Event::ServerTime(Some(1)));
    // an answer to another call leaves the stage unchanged
    c.step(Event::Recorded(true));
    assert!(matches!(c.stage, Stage::AwaitPlacement(1)));
    c.step(Event::Placed(Ok(9)));
    c.step(Event::Recorded(false));
    assert!(matches!(c.stage, Stage::Finished(Err(OrderError::RecordFailed))));
}

#[test]
fn sell_without_settled_balance_is_never_placed() {
    let config = StrategyConfig::standard();
    let lot = LotSize::new(CENT, CENT).unwrap();
    let mut sub = Submission::start(&config, &lot, "LTCUSDC", sell_request(), false);
    let mut polls = 0;
    let mut placements = 0;
    loop {
        match sub.action() {
            Action::PollBalance(wait) => {
                assert_eq!(wait, if polls == 0 { 0 } else { 2 });
                polls += 1;
                sub.step(Event::Balance(Some(5 * CENT)));
            }
            Action::PlaceOrder(_) => {
                placements += 1;
                break;
            }
            Action::Finish(r) => {
                assert_eq!(r, Err(OrderError::InsufficientBalance));
                break;
            }
            _ => panic!("unexpected call"),
        }
    }
    assert_eq!(polls, 5);
    assert_eq!(placements, 0);
}

#[test]
fn sell_proceeds_once_balance_settles() {
    let config = StrategyConfig::standard();
    let lot = LotSize::new(CENT, CENT).unwrap();
    let mut sub = Submission::start(&config, &lot, "LTCUSDC", sell_request(), false);
    sub.step(Event::Balance(None));
    sub.step(Event::Balance(Some(10 * CENT)));
    assert!(matches!(sub.action(), Action::PollBalance(2)));
    sub.step(Event::Balance(Some(11 * CENT)));
    assert!(matches!(sub.action(), Action::FetchServerTime));
}

#[test]
fn checked_sell_goes_straight_to_placement() {
    let config = StrategyConfig::standard();
    let lot = LotSize::new(CENT, CENT).unwrap();
    let sub = Submission::start(&config, &lot, "LTCUSDC", sell_request(), true);
    assert!(matches!(sub.action(), Action::FetchServerTime));
}

#[test]
fn error_descriptions() {
    assert_eq!(OrderError::BelowMinimum.message(), "quantity below minimum LOT_SIZE");
    assert_eq!(OrderError::InsufficientBalance.message(), "insufficient balance for requested action");
    assert_eq!(OrderError::PairNotBought.message(), "paired buy was not accepted");
}

#[test]
fn guard_counts_attempts() {
    let mut g = BalanceGuard::new(100, 2);
    assert_eq!(g.observe(Some(99)), GuardVerdict::Retry);
    assert_eq!(g.observe(None), GuardVerdict::Exhausted);
    let mut h = BalanceGuard::new(100, 2);
    assert_eq!(h.observe(Some(100)), GuardVerdict::Settled);
}
