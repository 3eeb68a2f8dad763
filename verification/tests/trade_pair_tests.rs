use vwap_feed::trade::{Trade, AMOUNT_MAX};
use vwap_feed::trade_pair::{Currency, TradePair};

#[test]
fn currency_codes() {
    assert_eq!(Currency::USD.code(), "USD");
    assert_eq!(Currency::BTC.code(), "BTC");
}

#[test]
fn canonical_pair_string() {
    let pair = TradePair::new(Currency::BTC, Currency::USD);
    assert_eq!(pair.to_string(), "BTC-USD");
    let reverse = TradePair::new(Currency::USD, Currency::BTC);
    assert_eq!(reverse.to_string(), "USD-BTC");
}

#[test]
fn trade_carries_its_fields() {
    let pair = TradePair::new(Currency::BTC, Currency::USD);
    let trade = Trade::new(pair, 250, 4);
    assert_eq!(trade.trade_pair, pair);
    assert_eq!(trade.price, 250);
    assert_eq!(trade.quantity, 4);
    let large = Trade::new(pair, AMOUNT_MAX, AMOUNT_MAX);
    assert_eq!(large.price, AMOUNT_MAX);
}
