use grid_engine::decimal::{apply_fee, apply_offset, mul_div, normalize, notional, quantity_for_notional, SCALE};
use grid_engine::lot::LotSize;
use grid_engine::order::OrderError;

const CENT: u64 = 1_000_000;

#[test]
fn normalize_truncates_to_step() {
    // 0.125 with a step of 0.01 is 0.12
    assert_eq!(normalize(12_500_000, CENT), 12 * CENT);
    // exact multiples are kept
    assert_eq!(normalize(13 * CENT, CENT), 13 * CENT);
    // below one step gives zero
    assert_eq!(normalize(999_999, CENT), 0);
}

#[test]
fn normalize_is_idempotent_and_not_larger() {
    for &(q, s) in &[(12_345_678u64, 1_000u64), (7, 3), (u64::MAX, 7), (100, 100), (0, 5)] {
        let n = normalize(q, s);
        assert!(n <= q);
        assert_eq!(n % s, 0);
        assert_eq!(normalize(n, s), n);
    }
}

#[test]
fn fee_strictly_reduces_sell_quantity() {
    // 0.12 less a 0.1% fee is 0.11988
    assert_eq!(apply_fee(12 * CENT, 100_000), 11_988_000);
    // 0.12 less a 1.5% fee is 0.1182
    assert_eq!(apply_fee(12 * CENT, 1_500_000), 11_820_000);
    for &q in &[1u64, 2, 1_000, 12 * CENT, u64::MAX] {
        assert!(apply_fee(q, 1) < q);
    }
    // no fee keeps the quantity
    assert_eq!(apply_fee(12 * CENT, 0), 12 * CENT);
}

#[test]
fn offsets_move_prices() {
    assert_eq!(apply_offset(80 * SCALE, 5_000_000), Some(84 * SCALE));
    assert_eq!(apply_offset(80 * SCALE, 15_000_000), Some(92 * SCALE));
    assert_eq!(apply_offset(80 * SCALE, -10_000_000), Some(72 * SCALE));
    assert_eq!(apply_offset(u64::MAX, 5_000_000), None);
}

#[test]
fn quantity_and_value() {
    assert_eq!(quantity_for_notional(10 * SCALE, 80 * SCALE), Some(12_500_000));
    assert_eq!(quantity_for_notional(u64::MAX, 1), None);
    assert_eq!(notional(84 * SCALE, 12 * CENT), Some(1_008_000_000));
    assert_eq!(notional(u64::MAX, u64::MAX), None);
    assert_eq!(mul_div(6, 7, 4), Some(10));
}

#[test]
fn lot_size_checks() {
    assert_eq!(LotSize::new(CENT, 0), None);
    let lot = LotSize::new(CENT, CENT).unwrap();
    assert_eq!(lot.check(12_500_000), Ok(12 * CENT));
    assert_eq!(lot.check(999_999), Err(OrderError::BelowMinimum));
    let fallback = LotSize::fallback();
    assert_eq!(fallback.min_qty, CENT);
    assert_eq!(fallback.step_size, CENT);
}
