use grid_engine::gateway::{find_free_balance, find_lot_size, find_min_notional, AssetBalance, FilterEntry, LotSizeError};
use grid_engine::launch::{can_place_more, remaining_capital, select_pair, CapitalAllocation, InputError, LaunchError, PairStatus};
use grid_engine::lot::LotSize;
use grid_engine::mirror::{mirror_changes, MirroredOrder};

fn filter(symbol: &str, kind: &str, min_qty: &str, step: &str, notional: &str) -> FilterEntry {
    FilterEntry {
        symbol: symbol.to_string(),
        filter_type: kind.to_string(),
        min_qty: min_qty.to_string(),
        step_size: step.to_string(),
        min_notional: notional.to_string(),
    }
}

#[test]
fn lot_size_lookup() {
    let entries = vec![
        filter("BTCUSDT", "LOT_SIZE", "0.00001000", "0.00001000", ""),
        filter("LTCUSDC", "PRICE_FILTER", "", "", ""),
        filter("LTCUSDC", "LOT_SIZE", "0.00100000", "0.00100000", ""),
        filter("LTCUSDC", "NOTIONAL", "", "", "5.00000000"),
        filter("BADUSDT", "LOT_SIZE", "0.1", "0.00000000", ""),
    ];
    assert_eq!(find_lot_size(&entries, "LTCUSDC"), Ok(LotSize { min_qty: 100_000, step_size: 100_000 }));
    assert_eq!(find_lot_size(&entries, "ETHUSDT"), Err(LotSizeError::NotListed));
    assert_eq!(find_lot_size(&entries, "BADUSDT"), Err(LotSizeError::ZeroStep));
    assert_eq!(find_min_notional(&entries, "LTCUSDC"), 500_000_000);
    assert_eq!(find_min_notional(&entries, "BTCUSDT"), 1_000_000_000);
}

#[test]
fn free_balance_lookup() {
    let balances = vec![
        AssetBalance { asset: "BTC".to_string(), free: "0.5".to_string(), locked: "0".to_string() },
        AssetBalance { asset: "LTC".to_string(), free: "0.36000000".to_string(), locked: "0.1".to_string() },
        AssetBalance { asset: "XRP".to_string(), free: "n/a".to_string(), locked: "0".to_string() },
    ];
    assert_eq!(find_free_balance(&balances, "LTC"), Some(36_000_000));
    assert_eq!(find_free_balance(&balances, "XRP"), Some(0));
    assert_eq!(find_free_balance(&balances, "ETH"), None);
}

fn mirrored(order_id: u64) -> MirroredOrder {
    MirroredOrder {
        order_id,
        symbol: "LTCUSDC".to_string(),
        price: 1,
        stop_price: 0,
        quantity: 2,
        order_type: "LIMIT".to_string(),
        status: "NEW".to_string(),
        time_ms: 3,
    }
}

#[test]
fn mirror_prunes_and_inserts() {
    let stored = vec![1, 2, 3];
    let fetched = vec![mirrored(2), mirrored(4), mirrored(4), mirrored(5)];
    let c = mirror_changes(&stored, &fetched);
    assert_eq!(c.delete, vec![1, 3]);
    let ids: Vec<u64> = c.insert.iter().map(|o| o.order_id).collect();
    assert_eq!(ids, vec![4, 5]);
    let empty = mirror_changes(&stored, &vec![]);
    assert_eq!(empty.delete, vec![1, 2, 3]);
    assert!(empty.insert.is_empty());
}

#[test]
fn launch_selection() {
    let pairs = vec![
        PairStatus { symbol: "BTCUSDT".to_string(), is_active: true },
        PairStatus { symbol: "LTCUSDC".to_string(), is_active: false },
    ];
    assert_eq!(select_pair(&pairs, "2"), Ok(1));
    assert_eq!(select_pair(&pairs, "1"), Err(LaunchError::AlreadyRunning));
    assert_eq!(select_pair(&pairs, "0"), Err(LaunchError::InvalidSelection));
    assert_eq!(select_pair(&pairs, "3"), Err(LaunchError::InvalidSelection));
    assert_eq!(select_pair(&pairs, "x"), Err(LaunchError::InvalidSelection));
    assert_eq!(select_pair(&vec![], "1"), Err(LaunchError::NoPairs));
}

#[test]
fn allocation_input() {
    let c = CapitalAllocation::from_input("LTCUSDC", "100", "70.5", "90").unwrap();
    assert_eq!(c.symbol, "LTCUSDC");
    assert_eq!(c.amount, 10_000_000_000);
    assert_eq!(c.min_price, 7_050_000_000);
    assert_eq!(c.max_price, 9_000_000_000);
    assert!(!c.is_active);
    assert_eq!(CapitalAllocation::from_input("X", "a", "1", "2").err(), Some(InputError::InvalidAmount));
    assert_eq!(CapitalAllocation::from_input("X", "1", "", "2").err(), Some(InputError::InvalidMinPrice));
    assert_eq!(CapitalAllocation::from_input("X", "1", "1", "-2").err(), Some(InputError::InvalidMaxPrice));
}

#[test]
fn capital_and_order_slots() {
    assert_eq!(remaining_capital(true, 36, 100), 36);
    assert_eq!(remaining_capital(false, 36, 100), 100);
    assert!(can_place_more(4));
    assert!(!can_place_more(5));
}
