use kuna::base::{Side, Target};
use kuna::coin::{Coin, Coins};
use kuna::decimal::Decimal;
use kuna::models::{CancelOrderRequest, CreateOrder, Currency};

fn dec(neg: bool, mantissa: u64, scale: u32) -> Decimal {
    Decimal { neg, mantissa, scale }
}

#[test]
fn create_order_negates_the_amount_for_a_sell() {
    let order = CreateOrder::new(
        Coins::TonUsdt,
        Side::Sell,
        Target::Limit,
        dec(false, 25, 1),
        dec(false, 1000, 1),
    );
    assert_eq!(order.symbol, "tonusdt");
    assert_eq!(order.amount, dec(true, 25, 1));
    assert_eq!(order.price, dec(false, 1000, 1));
    assert_eq!(order.order_type, "limit");
}

#[test]
fn create_order_keeps_the_amount_for_a_buy() {
    let order = CreateOrder::new(
        Coins::TonUsdt,
        Side::Buy,
        Target::Market,
        dec(false, 25, 1),
        dec(false, 1000, 1),
    );
    assert_eq!(order.amount, dec(false, 25, 1));
    assert_eq!(order.order_type, "market");
}

#[test]
fn create_order_renders_its_wire_body() {
    let order = CreateOrder::new(
        Coins::TonUsdt,
        Side::Sell,
        Target::Limit,
        dec(false, 25, 1),
        dec(false, 1000, 1),
    );
    assert_eq!(
        order.wire_json(),
        "{\"symbol\":\"tonusdt\",\"amount\":-2.5,\"price\":100.0,\"type\":\"limit\"}"
    );
}

#[test]
fn wire_body_escapes_the_symbol() {
    let order = CreateOrder {
        symbol: "a\"b\\c\ne".to_owned(),
        amount: dec(false, 1, 0),
        price: dec(false, 2, 0),
        order_type: "limit".to_owned(),
    };
    assert_eq!(
        order.wire_json(),
        "{\"symbol\":\"a\\\"b\\\\c\\u000ae\",\"amount\":1,\"price\":2,\"type\":\"limit\"}"
    );
}

#[test]
fn cancel_request_renders_its_wire_body() {
    assert_eq!(
        CancelOrderRequest { order_id: 42 }.wire_json(),
        "{\"order_id\":42}"
    );
    assert_eq!(
        CancelOrderRequest { order_id: -7 }.wire_json(),
        "{\"order_id\":-7}"
    );
}

#[test]
fn currency_reads_the_meaningful_record_positions() {
    let record = (
        "exchange".to_owned(),
        "ton".to_owned(),
        dec(false, 15, 1),
        None,
        dec(false, 5, 1),
    );
    let currency = Currency::from(&record).unwrap();
    assert_eq!(currency.coin, Coin::TON);
    assert_eq!(currency.full, dec(false, 15, 1));
    assert_eq!(currency.available, dec(false, 5, 1));
}

#[test]
fn currency_never_rejects_a_record() {
    let record = (
        "whatever".to_owned(),
        "mystery".to_owned(),
        dec(false, 1, 0),
        Some("noise".to_owned()),
        dec(false, 2, 0),
    );
    let currency = Currency::from(&record).unwrap();
    assert_eq!(currency.coin, Coin::Unknown("mystery".to_owned()));
}

#[test]
fn currency_writes_back_a_canonical_record() {
    let currency = Currency {
        coin: Coin::USDT,
        full: dec(false, 15, 1),
        available: dec(false, 5, 1),
    };
    let record = currency.to_entries();
    assert_eq!(record.0, "exchange");
    assert_eq!(record.1, "usdt");
    assert_eq!(record.2, dec(false, 15, 1));
    assert_eq!(record.3, None);
    assert_eq!(record.4, dec(false, 5, 1));
}
