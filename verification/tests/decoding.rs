use kuna::base::{Side, Target};
use kuna::coin::{Coin, Coins};
use kuna::decimal::Decimal;
use kuna::models::{
    decode_balances, decode_canceled_order_response, decode_create_order_response,
    decode_markets, decode_order_book_entries, CreateOrderError, DecodeError, OrderBook,
};
use kuna::order::{CanceledOrder, CanceledOrderError};

fn dec(neg: bool, mantissa: u64, scale: u32) -> Decimal {
    Decimal { neg, mantissa, scale }
}

#[test]
fn order_book_partitions_by_the_sign_of_the_size() {
    let entries = decode_order_book_entries(b"[[10.0,5.0,1],[9.0,-3.0,2]]").unwrap();
    let book = OrderBook::with(Coins::TonUsdt, entries);
    assert_eq!(book.coins, Coins::TonUsdt);
    assert_eq!(book.bids.len(), 1);
    assert_eq!(book.asks.len(), 1);
    assert_eq!(book.bids[0].price, dec(false, 100, 1));
    assert_eq!(book.bids[0].amount, dec(false, 50, 1));
    assert_eq!(book.bids[0].orders_number, 1);
    assert_eq!(book.asks[0].price, dec(false, 90, 1));
    // the amount is stored as its absolute value
    assert_eq!(book.asks[0].amount, dec(false, 30, 1));
    assert_eq!(book.asks[0].orders_number, 2);
}

#[test]
fn order_book_keeps_wire_order_and_sends_zero_sizes_to_the_asks() {
    let entries =
        decode_order_book_entries(b"[[1.0,2.0,1],[2.0,0.0,2],[3.0,4.0,3],[4.0,-1.0,4]]").unwrap();
    let book = OrderBook::with(Coins::TonUsdt, entries);
    assert_eq!(book.bids.len(), 2);
    assert_eq!(book.bids[0].price, dec(false, 10, 1));
    assert_eq!(book.bids[1].price, dec(false, 30, 1));
    assert_eq!(book.asks.len(), 2);
    assert_eq!(book.asks[0].price, dec(false, 20, 1));
    assert_eq!(book.asks[1].price, dec(false, 40, 1));
}

#[test]
fn order_book_rejects_malformed_levels() {
    assert_eq!(
        decode_order_book_entries(b"[[10.0,5.0,1],[9.0,-3.0]]"),
        Err(DecodeError::UnexpectedShape)
    );
    assert_eq!(
        decode_order_book_entries(b"[[10.0,5.0,1.5]]"),
        Err(DecodeError::UnexpectedShape)
    );
    assert_eq!(
        decode_order_book_entries(b"[[10.0,5.0,-1]]"),
        Err(DecodeError::UnexpectedShape)
    );
    assert_eq!(
        decode_order_book_entries(b"[[\"10.0\",5.0,1]]"),
        Err(DecodeError::UnexpectedShape)
    );
    assert_eq!(decode_order_book_entries(b"{}"), Err(DecodeError::UnexpectedShape));
}

#[test]
fn create_order_response_needs_seventeen_elements() {
    // sixteen elements: one short of the minimum
    let short = b"[1,null,null,\"tonusdt\",null,null,-2.5,0.0,\"limit\",null,null,null,null,null,null,null]";
    assert_eq!(
        decode_create_order_response(short),
        Err(CreateOrderError::InvalidJson)
    );
}

#[test]
fn create_order_response_derives_the_side_from_the_amount_sign() {
    let sell = b"[7,null,null,\"tonusdt\",null,null,-2.5,0.5,\"limit\",null,null,null,null,null,null,null,null]";
    let response = decode_create_order_response(sell).unwrap();
    assert_eq!(response.id, 7);
    assert_eq!(response.coins, Coins::TonUsdt);
    assert_eq!(response.side, Side::Sell);
    assert_eq!(response.target, Target::Limit);
    assert_eq!(response.initial_amount, dec(true, 25, 1));
    assert_eq!(response.executed_amount, dec(false, 5, 1));

    let buy = b"[7,null,null,\"tonusdt\",null,null,2.5,0.5,\"MARKET\",null,null,null,null,null,null,null,null]";
    let response = decode_create_order_response(buy).unwrap();
    assert_eq!(response.side, Side::Buy);
    assert_eq!(response.target, Target::Market);
}

#[test]
fn create_order_response_accepts_string_amounts() {
    let raw = b"[7,null,null,\"tonusdt\",null,null,\"-2.5\",\"0.0\",\"limit\",null,null,null,null,null,null,null,null]";
    let response = decode_create_order_response(raw).unwrap();
    assert_eq!(response.side, Side::Sell);
    assert_eq!(response.initial_amount, dec(true, 25, 1));
}

#[test]
fn create_order_response_names_the_field_that_failed() {
    let bad_amount = b"[7,null,null,\"tonusdt\",null,null,\"abc\",0.0,\"limit\",null,null,null,null,null,null,null,null]";
    assert_eq!(
        decode_create_order_response(bad_amount),
        Err(CreateOrderError::InvalidAmount)
    );
    let bad_pair = b"[7,null,null,\"btcusd\",null,null,-2.5,0.0,\"limit\",null,null,null,null,null,null,null,null]";
    assert_eq!(
        decode_create_order_response(bad_pair),
        Err(CreateOrderError::InvalidCoins)
    );
    let bad_target = b"[7,null,null,\"tonusdt\",null,null,-2.5,0.0,\"stop\",null,null,null,null,null,null,null,null]";
    assert_eq!(
        decode_create_order_response(bad_target),
        Err(CreateOrderError::InvalidTarget)
    );
    let bad_id = b"[1.5,null,null,\"tonusdt\",null,null,-2.5,0.0,\"limit\",null,null,null,null,null,null,null,null]";
    assert_eq!(
        decode_create_order_response(bad_id),
        Err(CreateOrderError::InvalidJson)
    );
}

fn canceled_payload(price: &str) -> Vec<u8> {
    format!(
        "{{\"id\":42,\"side\":\"sell\",\"type\":\"limit\",\"price\":\"{}\",\"avg_execution_price\":\"0.0\",\"state\":\"CANCELED\",\"symbol\":\"tonusdt\",\"timestamp\":1700000,\"original_amount\":\"5.0\",\"remaining_amount\":\"2.0\",\"executed_amount\":\"3.0\",\"is_cancelled\":null,\"was_forced\":\"no\"}}",
        price
    )
    .into_bytes()
}

#[test]
fn canceled_order_decodes_string_prices_as_numbers() {
    let response = decode_canceled_order_response(&canceled_payload("102.50")).unwrap();
    assert_eq!(response.id, 42);
    assert_eq!(response.price, "102.50");
    assert_eq!(response.is_cancelled, None);
    assert_eq!(response.was_forced, Some("no".to_owned()));
    assert_eq!(response.is_live, None);
    let order = CanceledOrder::try_from(&response).unwrap();
    assert_eq!(order.symbol, Coins::TonUsdt);
    assert_eq!(order.side, Side::Sell);
    assert_eq!(order.target, Target::Limit);
    assert_eq!(order.price, dec(false, 10250, 2));
    assert!(order.price.same_value(&dec(false, 1025, 1)));
    assert_eq!(order.original_amount, dec(false, 50, 1));
    assert_eq!(order.remaining_amount, dec(false, 20, 1));
}

#[test]
fn canceled_order_reports_the_field_that_failed() {
    let response = decode_canceled_order_response(&canceled_payload("abc")).unwrap();
    assert_eq!(
        CanceledOrder::try_from(&response),
        Err(CanceledOrderError::InvalidPrice)
    );
}

#[test]
fn canceled_order_rejects_missing_fields() {
    assert_eq!(
        decode_canceled_order_response(b"{\"id\":42}"),
        Err(DecodeError::UnexpectedShape)
    );
    assert_eq!(
        decode_canceled_order_response(b"[]"),
        Err(DecodeError::UnexpectedShape)
    );
}

#[test]
fn balances_skip_unreadable_records() {
    let payload =
        b"[[\"exchange\",\"ton\",1.5,null,0.5],[\"bad\"],[\"exchange\",\"XYZ\",2.0,\"x\",1.0]]";
    let balances = decode_balances(payload).unwrap();
    assert_eq!(balances.len(), 2);
    assert_eq!(balances[0].coin, Coin::TON);
    assert_eq!(balances[0].full, dec(false, 15, 1));
    assert_eq!(balances[0].available, dec(false, 5, 1));
    assert_eq!(balances[1].coin, Coin::Unknown("XYZ".to_owned()));
    assert_eq!(balances[1].full, dec(false, 20, 1));
    assert_eq!(balances[1].available, dec(false, 10, 1));
}

#[test]
fn balances_ignore_extra_record_elements() {
    let payload = b"[[\"exchange\",\"usdt\",1.0,null,2.0,\"extra\",99]]";
    let balances = decode_balances(payload).unwrap();
    assert_eq!(balances.len(), 1);
    assert_eq!(balances[0].coin, Coin::USDT);
}

#[test]
fn balances_need_an_array_payload() {
    assert_eq!(decode_balances(b"{}"), Err(DecodeError::UnexpectedShape));
    assert_eq!(decode_balances(b"null"), Err(DecodeError::UnexpectedShape));
}

#[test]
fn markets_decode_every_field() {
    let payload = "[{\"id\":\"tonusdt\",\"base_unit\":\"ton\",\"quote_unit\":\"usdt\",\"base_precision\":4,\"quote_precision\":2,\"display_precision\":3,\"price_change\":-1.25}]";
    let markets = decode_markets(payload.as_bytes()).unwrap();
    assert_eq!(markets.len(), 1);
    assert_eq!(markets[0].id, "tonusdt");
    assert_eq!(markets[0].base_unit, "ton");
    assert_eq!(markets[0].quote_unit, "usdt");
    assert_eq!(markets[0].base_precision, 4);
    assert_eq!(markets[0].quote_precision, 2);
    assert_eq!(markets[0].display_precision, 3);
    assert_eq!(markets[0].price_change, dec(true, 125, 2));
}

#[test]
fn markets_fail_on_one_bad_entry() {
    let payload = "[{\"id\":\"tonusdt\",\"base_unit\":\"ton\",\"quote_unit\":\"usdt\",\"base_precision\":4,\"quote_precision\":2,\"display_precision\":3,\"price_change\":-1.25},{\"id\":\"broken\"}]";
    assert_eq!(decode_markets(payload.as_bytes()), Err(DecodeError::UnexpectedShape));
}

#[test]
fn malformed_bytes_always_come_back_as_classified_failures() {
    let garbage: Vec<&[u8]> = vec![
        b"",
        b"{",
        b"\xff\xfe\x00garbage",
        b"[1,2",
        b"nul",
        b"\"unterminated",
    ];
    for bytes in garbage {
        assert_eq!(decode_balances(bytes), Err(DecodeError::MalformedJson));
        assert_eq!(decode_order_book_entries(bytes), Err(DecodeError::MalformedJson));
        assert_eq!(decode_markets(bytes), Err(DecodeError::MalformedJson));
        assert_eq!(
            decode_canceled_order_response(bytes),
            Err(DecodeError::MalformedJson)
        );
        assert_eq!(
            decode_create_order_response(bytes),
            Err(CreateOrderError::InvalidJson)
        );
    }
}
