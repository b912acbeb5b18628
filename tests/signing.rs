use grid_engine::signing::{append_signature, generate_signature, sign_query, signature_tag};
use grid_engine::submit::{order_query, symbol_query, timestamp_query, PreparedOrder};
use grid_engine::order::Side;

#[test]
fn hmac_sha256_known_vector() {
    let sig = generate_signature("what do ya want for nothing?", "Jefe");
    assert_eq!(sig, "5bdcc146bf60754e6a042426089575c75a003f089d2739839dec58b964ec3843");
    assert_eq!(signature_tag("what do ya want for nothing?", "Jefe").len(), 32);
}

#[test]
fn signature_is_appended_as_hex() {
    assert_eq!(append_signature("a=1", &[0xde, 0xad, 0x01]), "a=1&signature=dead01");
    let signed = sign_query("what do ya want for nothing?", "Jefe");
    assert_eq!(
        signed,
        "what do ya want for nothing?&signature=5bdcc146bf60754e6a042426089575c75a003f089d2739839dec58b964ec3843"
    );
}

#[test]
fn builds_order_queries() {
    let market = PreparedOrder { side: Side::Buy, price: 8_000_000_000, quantity: 12_000_000, market: true };
    assert_eq!(
        order_query("LTCUSDC", &market, 1700000000000),
        "symbol=LTCUSDC&side=BUY&type=MARKET&quantity=0.120000&timestamp=1700000000000"
    );
    let limit = PreparedOrder { side: Side::Sell, price: 8_400_000_000, quantity: 11_000_000, market: false };
    assert_eq!(
        order_query("LTCUSDC", &limit, 42),
        "symbol=LTCUSDC&side=SELL&type=LIMIT&timeInForce=GTC&quantity=0.110000&price=84.00&timestamp=42"
    );
    // 80.37 * 1.05 = 84.3885 goes out rounded to the cent; quantities round at six decimals
    let off_grid = PreparedOrder { side: Side::Sell, price: 8_438_850_000, quantity: 12_345_678, market: false };
    assert_eq!(
        order_query("LTCUSDC", &off_grid, 1),
        "symbol=LTCUSDC&side=SELL&type=LIMIT&timeInForce=GTC&quantity=0.123457&price=84.39&timestamp=1"
    );
    let down = PreparedOrder { side: Side::Buy, price: 8_438_499_999, quantity: 12_345_649, market: false };
    assert_eq!(
        order_query("X", &down, 1),
        "symbol=X&side=BUY&type=LIMIT&timeInForce=GTC&quantity=0.123456&price=84.38&timestamp=1"
    );
    let half = PreparedOrder { side: Side::Buy, price: 500_000, quantity: 50, market: false };
    assert_eq!(
        order_query("X", &half, 1),
        "symbol=X&side=BUY&type=LIMIT&timeInForce=GTC&quantity=0.000001&price=0.01&timestamp=1"
    );
    assert_eq!(timestamp_query(7), "timestamp=7");
    assert_eq!(symbol_query("BTCUSDT", 1499827319559), "symbol=BTCUSDT&timestamp=1499827319559");
}
