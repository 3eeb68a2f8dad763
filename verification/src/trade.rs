//! One executed transaction reported by the exchange feed.
//!
//! Prices and quantities are fixed-point amounts: an amount of `n` units
//! stands for the real number `n / AMOUNT_UNIT`. Both are positive and
//! bounded by [`AMOUNT_MAX`] so that window sums stay representable.

use vstd::prelude::*;
use crate::trade_pair::TradePair;

verus! {

/// Fixed-point scale: how many units make one whole.
pub const AMOUNT_UNIT: u64 = 100_000_000;

/// Largest representable amount, in units.
pub const AMOUNT_MAX: u64 = 1_000_000_000_000_000;

/// One executed trade: the pair it was executed on, its price and its
/// quantity, both as positive fixed-point amounts. Immutable once built.
#[derive(Clone, Copy, Debug, PartialEq, Eq, Structural)]
pub struct Trade {
    pub trade_pair: TradePair,
    pub price: u64,
    pub quantity: u64,
}

impl Trade {
    /// A well-formed trade has a positive, bounded price and quantity.
    pub open spec fn wf(self) -> bool {
        &&& 0 < self.price <= AMOUNT_MAX
        &&& 0 < self.quantity <= AMOUNT_MAX
    }

    pub fn new(trade_pair: TradePair, price: u64, quantity: u64) -> (r: Trade)
        requires
            0 < price <= AMOUNT_MAX,
            0 < quantity <= AMOUNT_MAX,
        ensures
            r == (Trade { trade_pair, price, quantity }),
            r.wf(),
    {
        Trade { trade_pair, price, quantity }
    }
}

} // verus!
