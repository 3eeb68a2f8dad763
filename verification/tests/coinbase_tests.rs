use vwap_feed::coinbase::{classify_execution_event, CoinbaseProvider, FrameOutcome};
use vwap_feed::trade_pair::{Currency, TradePair};
use vwap_feed::vwap::VWAP;

fn pair() -> TradePair {
    TradePair::new(Currency::BTC, Currency::USD)
}

fn match_frame(price: &str, size: &str) -> String {
    format!(
        "{{\"type\":\"match\",\"trade_id\":10,\"sequence\":50,\"maker_order_id\":\"ac928c66\",\"taker_order_id\":\"132fb6ae\",\"time\":\"2014-11-07T08:19:27.028459Z\",\"product_id\":\"BTC-USD\",\"size\":\"{}\",\"price\":\"{}\",\"side\":\"sell\"}}",
        size, price
    )
}

#[test]
fn subscribe_message_names_the_pair_verbatim() {
    let provider = CoinbaseProvider::new();
    let msg = provider.subscribe_message(&pair());
    assert_eq!(
        msg,
        "{\"type\":\"subscribe\",\"product_ids\":[\"BTC-USD\"],\"channels\":[\"matches\"]}"
    );
    assert!(msg.contains("BTC-USD"));
}

#[test]
fn subscription_ack_recognition() {
    let provider = CoinbaseProvider::new();
    assert!(provider.is_subscription_ack("{\"type\":\"subscriptions\",\"channels\":[]}"));
    assert!(!provider.is_subscription_ack("{\"type\":\"heartbeat\"}"));
    assert!(!provider.is_subscription_ack("{\"channels\":[]}"));
    assert!(!provider.is_subscription_ack("not json at all"));
}

#[test]
fn valid_match_frame_forwards_a_trade() {
    let provider = CoinbaseProvider::new();
    let frame = match_frame("29123.45", "0.00262556");
    match provider.decode_frame(&frame, &pair()) {
        FrameOutcome::Forward(t) => {
            assert_eq!(t.trade_pair, pair());
            assert_eq!(t.price, 2_912_345_000_000);
            assert_eq!(t.quantity, 262_556);
        }
        other => panic!("expected a forwarded trade, got {:?}", other),
    }
}

#[test]
fn other_frame_types_are_ignored() {
    let provider = CoinbaseProvider::new();
    let outcome = provider.decode_frame("{\"type\":\"heartbeat\",\"sequence\":90}", &pair());
    assert_eq!(outcome, FrameOutcome::Ignored);
}

#[test]
fn corrupt_frames_are_per_frame_decode_errors() {
    let provider = CoinbaseProvider::new();
    assert_eq!(
        provider.decode_frame("{\"type\":\"match\",\"trade_id\":", &pair()),
        FrameOutcome::DecodeError
    );
    // Structurally valid JSON that misses execution-event fields.
    assert_eq!(
        provider.decode_frame("{\"type\":\"match\",\"trade_id\":10}", &pair()),
        FrameOutcome::DecodeError
    );
    // A field with the wrong kind.
    let frame = match_frame("29123.45", "0.1").replace("\"trade_id\":10", "\"trade_id\":\"x\"");
    assert_eq!(provider.decode_frame(&frame, &pair()), FrameOutcome::DecodeError);
    // An unparsable price string.
    assert_eq!(
        provider.decode_frame(&match_frame("29,123", "0.1"), &pair()),
        FrameOutcome::DecodeError
    );
}

#[test]
fn zero_price_or_quantity_is_filtered_and_never_aggregated() {
    let provider = CoinbaseProvider::new();
    let mut vwap = VWAP::new();
    for frame in [match_frame("0", "0.5"), match_frame("100.0", "0.00")] {
        match provider.decode_frame(&frame, &pair()) {
            FrameOutcome::Forward(t) => {
                vwap.process_trade(t);
                panic!("a zero-price or zero-quantity event must not be forwarded");
            }
            outcome => assert_eq!(outcome, FrameOutcome::Filtered),
        }
    }
    assert!(vwap.window_trades().is_empty());
}

#[test]
fn one_corrupt_frame_costs_exactly_one_trade() {
    let provider = CoinbaseProvider::new();
    let n: usize = 10;
    let mut forwarded: usize = 0;
    let mut last_forwarded_price: u64 = 0;
    for i in 0..n {
        let frame = if i == 4 {
            "{\"type\":\"match\",\"price\":garbage".to_string()
        } else {
            match_frame(&format!("{}.0", 100 + i), "1.0")
        };
        if let FrameOutcome::Forward(t) = provider.decode_frame(&frame, &pair()) {
            forwarded += 1;
            last_forwarded_price = t.price;
        }
    }
    assert_eq!(forwarded, n - 1);
    // Decoding went on after the corrupt frame: the last frame got through.
    assert_eq!(last_forwarded_price, 109 * 100_000_000);
}

#[test]
fn decoded_frames_drive_the_aggregator() {
    let provider = CoinbaseProvider::new();
    let mut vwap = VWAP::with_capacity(2);
    let mut last = None;
    for frame in [
        match_frame("10", "1"),
        match_frame("20", "1"),
        match_frame("30", "1"),
    ] {
        if let FrameOutcome::Forward(t) = provider.decode_frame(&frame, &pair()) {
            last = Some(vwap.process_trade(t));
        }
    }
    let r = last.unwrap();
    // The oldest trade was evicted: (20 + 30) / 2, in units scaled by the
    // fixed-point amount scale.
    assert_eq!(r.price_volume as f64 / r.volume as f64 / 100_000_000.0, 25.0);
    assert_eq!(vwap.window_trades().len(), 2);
}

#[test]
fn classification_is_exact_on_extracted_fields() {
    let p = pair();
    match classify_execution_event("match", "10.5", "2", &p) {
        FrameOutcome::Forward(t) => {
            assert_eq!(t.price, 1_050_000_000);
            assert_eq!(t.quantity, 200_000_000);
        }
        other => panic!("expected a forwarded trade, got {:?}", other),
    }
    assert_eq!(
        classify_execution_event("subscriptions", "10.5", "2", &p),
        FrameOutcome::Ignored
    );
    assert_eq!(
        classify_execution_event("match", "bad", "2", &p),
        FrameOutcome::DecodeError
    );
    assert_eq!(
        classify_execution_event("match", "10.5", "0", &p),
        FrameOutcome::Filtered
    );
}
