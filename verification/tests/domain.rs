use kuna::base::{ParseError, Side, Target};
use kuna::coin::{Coin, Coins};

#[test]
fn side_parses_exact_lowercase_words() {
    assert_eq!(Side::parse("sell"), Ok(Side::Sell));
    assert_eq!(Side::parse("buy"), Ok(Side::Buy));
}

#[test]
fn side_rejects_other_casings_and_words() {
    assert_eq!(Side::parse("Sell"), Err(ParseError::InvalidSide));
    assert_eq!(Side::parse("BUY"), Err(ParseError::InvalidSide));
    assert_eq!(Side::parse("hold"), Err(ParseError::InvalidSide));
    assert_eq!(Side::parse(""), Err(ParseError::InvalidSide));
}

#[test]
fn side_round_trips_through_its_wire_form() {
    assert_eq!(Side::parse(Side::Sell.wire()), Ok(Side::Sell));
    assert_eq!(Side::parse(Side::Buy.wire()), Ok(Side::Buy));
}

#[test]
fn target_parses_case_insensitively() {
    assert_eq!(Target::parse("market"), Ok(Target::Market));
    assert_eq!(Target::parse("MARKET"), Ok(Target::Market));
    assert_eq!(Target::parse("Limit"), Ok(Target::Limit));
    assert_eq!(Target::parse("limit"), Ok(Target::Limit));
}

#[test]
fn target_rejects_unknown_words() {
    assert_eq!(Target::parse("stop"), Err(ParseError::InvalidTarget));
    assert_eq!(Target::parse(""), Err(ParseError::InvalidTarget));
}

#[test]
fn target_round_trips_through_its_wire_form() {
    assert_eq!(Target::parse(Target::Market.wire()), Ok(Target::Market));
    assert_eq!(Target::parse(Target::Limit.wire()), Ok(Target::Limit));
}

#[test]
fn coin_parses_known_tickers_in_any_casing() {
    assert_eq!(Coin::parse("ton"), Coin::TON);
    assert_eq!(Coin::parse("TON"), Coin::TON);
    assert_eq!(Coin::parse("usdt"), Coin::USDT);
    assert_eq!(Coin::parse("Usdt"), Coin::USDT);
}

#[test]
fn coin_keeps_unknown_tickers_verbatim() {
    assert_eq!(Coin::parse("xyz"), Coin::Unknown("xyz".to_owned()));
    assert_eq!(Coin::parse("XyZ"), Coin::Unknown("XyZ".to_owned()));
    assert_eq!(Coin::parse(""), Coin::Unknown("".to_owned()));
}

#[test]
fn coin_round_trips_through_its_symbol() {
    assert_eq!(Coin::parse(&Coin::TON.symbol()), Coin::TON);
    assert_eq!(Coin::parse(&Coin::USDT.symbol()), Coin::USDT);
    let other = Coin::Unknown("pepe".to_owned());
    assert_eq!(Coin::parse(&other.symbol()), other);
}

#[test]
fn coin_symbols_are_canonical_lowercase() {
    assert_eq!(Coin::TON.symbol(), "ton");
    assert_eq!(Coin::USDT.symbol(), "usdt");
}

#[test]
fn pair_symbol_concatenates_base_and_quote() {
    assert_eq!(Coins::TonUsdt.symbol(), "tonusdt");
    assert_eq!(Coins::TonUsdt.base_coin(), Coin::TON);
    assert_eq!(Coins::TonUsdt.quote_coin(), Coin::USDT);
}

#[test]
fn pair_round_trips_through_its_symbol() {
    assert_eq!(Coins::parse(&Coins::TonUsdt.symbol()), Ok(Coins::TonUsdt));
}

#[test]
fn unsupported_pair_symbols_fail_specifically() {
    assert_eq!(Coins::parse("btcusd"), Err(ParseError::UnsupportedPair));
    assert_eq!(Coins::parse("TONUSDT"), Err(ParseError::UnsupportedPair));
    assert_eq!(Coins::parse("tonusdt "), Err(ParseError::UnsupportedPair));
    assert_eq!(Coins::parse(""), Err(ParseError::UnsupportedPair));
}
