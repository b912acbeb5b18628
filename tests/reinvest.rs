use grid_engine::config::StrategyConfig;
use grid_engine::decimal::SCALE;
use grid_engine::lot::LotSize;
use grid_engine::monitor::{
    fill_trade, plan_reinvestment, reinvestment_steps, settle_fill, select_unprocessed, ExchangeOrder,
    FilledSell,
};
use grid_engine::order::{OrderError, OrderRequest, Side};

const CENT: u64 = 1_000_000;

fn listed(order_id: u64, side: &str, status: &str, price: u64, qty: u64) -> ExchangeOrder {
    ExchangeOrder {
        order_id,
        symbol: "LTCUSDC".to_string(),
        side: side.to_string(),
        status: status.to_string(),
        price,
        executed_qty: qty,
    }
}

#[test]
fn recorded_fill_is_not_reprocessed() {
    let orders = vec![
        listed(41, "SELL", "FILLED", 84 * SCALE, 11 * CENT),
        listed(42, "SELL", "FILLED", 88 * SCALE, 11 * CENT),
        listed(43, "BUY", "FILLED", 80 * SCALE, 12 * CENT),
        listed(44, "SELL", "NEW", 92 * SCALE, 0),
    ];
    let first = select_unprocessed(&orders, &vec![42]);
    assert_eq!(first.len(), 1);
    assert_eq!(first[0].order_id, 41);
    assert_eq!(first[0].price, 84 * SCALE);
    assert_eq!(first[0].quantity, 11 * CENT);
    let second = select_unprocessed(&orders, &vec![42, 41]);
    assert!(second.is_empty());
    assert_eq!(select_unprocessed(&orders, &vec![]).len(), 2);
}

#[test]
fn reinvestment_numbers() {
    let config = StrategyConfig::standard();
    let lot = LotSize::new(CENT, CENT).unwrap();
    let fill = FilledSell { order_id: 7, symbol: "LTCUSDC".to_string(), price: 100 * SCALE, quantity: SCALE };
    let r = plan_reinvestment(&config, &lot, &fill).unwrap();
    // value 100, profit 105, capital 205, rebuy at 95 for 2.15, resell at 99.75
    assert_eq!(r.recycled, 100 * SCALE);
    assert_eq!(r.profit, 105 * SCALE);
    assert_eq!(r.buy, OrderRequest { side: Side::Buy, price: 95 * SCALE, quantity: 215 * CENT, market: false });
    assert_eq!(r.sell, OrderRequest { side: Side::Sell, price: 9_975_000_000, quantity: 215 * CENT, market: false });
    let steps = reinvestment_steps(&r);
    assert_eq!(steps.len(), 2);
    assert_eq!(steps[1].after, Some(0));
    let settled = settle_fill(&fill, &r, Ok(5)).unwrap();
    assert_eq!(settled.credit, 100 * SCALE);
    assert_eq!(settled.record.order_id, 7);
    assert_eq!(settled.record.profit, Some(105 * SCALE));
    assert!(settle_fill(&fill, &r, Err(OrderError::Rejected)).is_none());
    let t = fill_trade(&fill, &r);
    assert_eq!(t.order_id, 7);
    assert_eq!(t.profit, Some(105 * SCALE));
}

#[test]
fn reinvestment_refusals() {
    let config = StrategyConfig::standard();
    let lot = LotSize::new(CENT, CENT).unwrap();
    let small = FilledSell { order_id: 1, symbol: "X".to_string(), price: 100 * SCALE, quantity: 1 };
    assert_eq!(plan_reinvestment(&config, &lot, &small), Err(OrderError::BelowMinimum));
    let free = FilledSell { order_id: 2, symbol: "X".to_string(), price: 0, quantity: SCALE };
    assert_eq!(plan_reinvestment(&config, &lot, &free), Err(OrderError::InvalidPrice));
    let huge = FilledSell { order_id: 3, symbol: "X".to_string(), price: u64::MAX, quantity: u64::MAX };
    assert_eq!(plan_reinvestment(&config, &lot, &huge), Err(OrderError::OutOfRange));
}
