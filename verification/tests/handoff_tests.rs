use std::time::Duration;

use vwap_feed::trade::Trade;
use vwap_feed::trade_pair::{Currency, TradePair};

fn pair() -> TradePair {
    TradePair::new(Currency::BTC, Currency::USD)
}

// A saturated bounded handoff channel suspends the producer instead of
// dropping or failing, and once the consumer resumes, every buffered trade
// arrives in its original order.
#[test]
fn saturated_handoff_suspends_and_preserves_order() {
    let rt = tokio::runtime::Runtime::new().unwrap();
    rt.block_on(async {
        let (tx, mut rx) = tokio::sync::mpsc::channel::<Trade>(2);

        let producer = tokio::spawn(async move {
            for p in 1..=5u64 {
                // Suspends while the channel is full; never drops, never errs.
                tx.send(Trade::new(pair(), p, 1)).await.unwrap();
            }
        });

        // Give the producer time to fill the channel and suspend on it.
        tokio::time::sleep(Duration::from_millis(100)).await;
        assert!(!producer.is_finished());

        let mut got: Vec<u64> = Vec::new();
        while let Some(t) = rx.recv().await {
            got.push(t.price);
        }
        producer.await.unwrap();
        assert_eq!(got, vec![1, 2, 3, 4, 5]);
    });
}
