//! Streaming VWAP pipeline for one exchange trade feed: value types for
//! currencies, pairs and trades, a fixed-point decimal codec, the frame
//! decoding and subscription logic of the exchange connector, and the
//! sliding-window volume-weighted-average-price aggregator.
//!
//! Network I/O, the async tasks and the bounded channels that join them are
//! the caller's concern; everything here is pure computation with contracts.

pub mod coinbase;
pub mod decimal;
pub mod trade;
pub mod trade_pair;
pub mod vwap;
