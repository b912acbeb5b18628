use grid_engine::text::{extract_base_asset, format_decimal, format_integer, parse_decimal, parse_unsigned, text_equals};

#[test]
fn formats_numbers() {
    assert_eq!(format_integer(0), "0");
    assert_eq!(format_integer(1499827319559), "1499827319559");
    assert_eq!(format_decimal(8_400_000_000), "84.00000000");
    assert_eq!(format_decimal(12_000_000), "0.12000000");
    assert_eq!(format_decimal(1), "0.00000001");
}

#[test]
fn parses_decimals() {
    assert_eq!(parse_decimal("80.00000000"), Some(8_000_000_000));
    assert_eq!(parse_decimal("0.01"), Some(1_000_000));
    assert_eq!(parse_decimal("5"), Some(500_000_000));
    assert_eq!(parse_decimal("5."), Some(500_000_000));
    assert_eq!(parse_decimal(".5"), None);
    assert_eq!(parse_decimal("1.123456789"), None);
    assert_eq!(parse_decimal("abc"), None);
    assert_eq!(parse_decimal("1.2.3"), None);
    assert_eq!(parse_decimal(""), None);
    assert_eq!(parse_decimal("184467440737.09551615"), Some(u64::MAX));
    assert_eq!(parse_decimal("184467440737.09551616"), None);
    assert_eq!(parse_decimal("99999999999999999999999"), None);
}

#[test]
fn parses_unsigned() {
    assert_eq!(parse_unsigned("3"), Some(3));
    assert_eq!(parse_unsigned("18446744073709551615"), Some(u64::MAX));
    assert_eq!(parse_unsigned("18446744073709551616"), None);
    assert_eq!(parse_unsigned(""), None);
    assert_eq!(parse_unsigned("-1"), None);
}

#[test]
fn base_asset_of_pairs() {
    assert_eq!(extract_base_asset("LTCUSDC"), "LTC");
    assert_eq!(extract_base_asset("BTCUSDT"), "BTC");
    assert_eq!(extract_base_asset("ETHBTC"), "ETH");
    assert_eq!(extract_base_asset("XRPTUSD"), "XRP");
    assert_eq!(extract_base_asset("ABCXYZ"), "ABCXYZ");
    assert_eq!(extract_base_asset("USDT"), "");
}

#[test]
fn compares_text() {
    assert!(text_equals("FILLED", "FILLED"));
    assert!(!text_equals("FILLED", "FILLE"));
    assert!(!text_equals("SELL", "BUY "));
}
