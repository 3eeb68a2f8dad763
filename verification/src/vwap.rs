//! The VWAP aggregator: a bounded trailing window of the most recent trades
//! of one pair, and the volume-weighted average price over it.
//!
//! The VWAP of a window is the exact rational
//! `sum(price_i * quantity_i) / sum(quantity_i)`; a result carries that
//! numerator and denominator unreduced, so nothing is rounded here.

use vstd::prelude::*;
use crate::trade::{Trade, AMOUNT_MAX};
use crate::trade_pair::TradePair;

verus! {

/// Window capacity used by [`VWAP::new`].
pub const DEFAULT_WINDOW_CAPACITY: usize = 200;

/// Largest accepted window capacity; keeps window sums well below `u128`.
pub const WINDOW_CAPACITY_MAX: usize = 1_000_000;

/// Upper bound on `price * quantity` of one well-formed trade.
pub const TRADE_PRICE_VOLUME_MAX: u128 = 1_000_000_000_000_000_000_000_000_000_000;

/// Sum of `price * quantity` over a window, oldest first.
pub open spec fn sum_price_volume(w: Seq<Trade>) -> int
    decreases w.len(),
{
    if w.len() == 0 {
        0
    } else {
        sum_price_volume(w.drop_last()) + w.last().price * w.last().quantity
    }
}

/// Sum of `quantity` over a window.
pub open spec fn sum_volume(w: Seq<Trade>) -> int
    decreases w.len(),
{
    if w.len() == 0 {
        0
    } else {
        sum_volume(w.drop_last()) + w.last().quantity
    }
}

/// What one arrival does to a window of capacity `cap`: append the newest
/// trade, and evict the oldest entry if the window would exceed `cap`.
pub open spec fn push_evict(w: Seq<Trade>, t: Trade, cap: int) -> Seq<Trade> {
    if w.len() + 1 > cap {
        w.push(t).drop_first()
    } else {
        w.push(t)
    }
}

/// Bound on a partial sum after one more step: a sum of `i` addends, each
/// at most `step_max`, grows by one more addend to at most `(i + 1) * step_max`,
/// which stays under `cap * step_max`.
proof fn lemma_sum_step(partial: int, step: int, i: int, cap: int, step_max: int)
    by (nonlinear_arith)
    requires
        0 <= partial <= i * step_max,
        0 <= step <= step_max,
        0 <= i < cap,
    ensures
        partial + step <= (i + 1) * step_max,
        partial + step <= cap * step_max,
{
}

/// One VWAP reading: the pair and the exact value `price_volume / volume`.
#[derive(Clone, Copy, Debug, PartialEq, Eq, Structural)]
pub struct VWAPResult {
    pub pair: TradePair,
    /// Numerator: sum of `price * quantity` over the window, in squared units.
    pub price_volume: u128,
    /// Denominator: sum of `quantity` over the window, in units; never zero.
    pub volume: u128,
}

impl VWAPResult {
    pub fn new(pair: TradePair, price_volume: u128, volume: u128) -> (r: VWAPResult)
        ensures
            r == (VWAPResult { pair, price_volume, volume }),
    {
        VWAPResult { pair, price_volume, volume }
    }
}

/// The aggregator: a trailing window of the most recent trades, bounded by
/// a fixed capacity, owned and mutated by exactly one consumer.
pub struct VWAP {
    trade_samples: Vec<Trade>,
    capacity: usize,
}

impl VWAP {
    /// The current window, oldest trade first.
    pub closed spec fn window(self) -> Seq<Trade> {
        self.trade_samples@
    }

    /// The fixed capacity this aggregator was built with.
    pub closed spec fn capacity_spec(self) -> int {
        self.capacity as int
    }

    /// Well-formedness: the capacity is positive and bounded, the window
    /// never holds more than `capacity` trades, and every held trade is
    /// well-formed.
    pub open spec fn wf(self) -> bool {
        &&& 1 <= self.capacity_spec() <= WINDOW_CAPACITY_MAX
        &&& self.window().len() <= self.capacity_spec()
        &&& forall|i: int| 0 <= i < self.window().len() ==> (#[trigger] self.window()[i]).wf()
    }

    /// An empty aggregator with the default window capacity.
    pub fn new() -> (r: VWAP)
        ensures
            r.wf(),
            r.window() == Seq::<Trade>::empty(),
            r.capacity_spec() == DEFAULT_WINDOW_CAPACITY as int,
    {
        VWAP { trade_samples: Vec::new(), capacity: DEFAULT_WINDOW_CAPACITY }
    }

    /// An empty aggregator with the given window capacity.
    pub fn with_capacity(capacity: usize) -> (r: VWAP)
        requires
            1 <= capacity <= WINDOW_CAPACITY_MAX,
        ensures
            r.wf(),
            r.window() == Seq::<Trade>::empty(),
            r.capacity_spec() == capacity as int,
    {
        VWAP { trade_samples: Vec::new(), capacity }
    }

    /// The trades currently in the window, oldest first.
    pub fn window_trades(&self) -> (r: &Vec<Trade>)
        ensures
            r@ == self.window(),
    {
        &self.trade_samples
    }

    /// The window capacity.
    pub fn capacity(&self) -> (r: usize)
        ensures
            r as int == self.capacity_spec(),
    {
        self.capacity
    }

    /// Consume one trade: append it to the window, evict the oldest entry
    /// if the window would exceed its capacity, and recompute the VWAP
    /// over the whole new window.
    pub fn process_trade(&mut self, trade: Trade) -> (r: VWAPResult)
        requires
            old(self).wf(),
            trade.wf(),
        ensures
            final(self).wf(),
            final(self).capacity_spec() == old(self).capacity_spec(),
            final(self).window() == push_evict(old(self).window(), trade, old(self).capacity_spec()),
            r.pair == trade.trade_pair,
            r.price_volume as int == sum_price_volume(final(self).window()),
            r.volume as int == sum_volume(final(self).window()),
            r.volume > 0,
    {
        self.trade_samples.push(trade);
        if self.trade_samples.len() > self.capacity {
            self.trade_samples.remove(0);
            proof {
                assert(self.trade_samples@ =~= old(self).window().push(trade).drop_first());
            }
        }
        let ghost w = self.trade_samples@;

        let mut price_volume: u128 = 0;
        let mut volume: u128 = 0;
        let mut i: usize = 0;
        let n = self.trade_samples.len();
        while i < n
            invariant
                n == w.len(),
                w == self.trade_samples@,
                0 <= i <= n,
                n <= WINDOW_CAPACITY_MAX,
                forall|j: int| 0 <= j < w.len() ==> (#[trigger] w[j]).wf(),
                price_volume as int == sum_price_volume(w.take(i as int)),
                price_volume <= (i as u128) * TRADE_PRICE_VOLUME_MAX,
                volume as int == sum_volume(w.take(i as int)),
                volume <= (i as u128) * (AMOUNT_MAX as u128),
                i <= volume,
            decreases n - i,
        {
            let t = self.trade_samples[i];
            proof {
                assert(w.take(i + 1).drop_last() =~= w.take(i as int));
                assert((t.price as int) * (t.quantity as int) <= TRADE_PRICE_VOLUME_MAX) by (nonlinear_arith)
                    requires 0 < t.price <= AMOUNT_MAX && 0 < t.quantity <= AMOUNT_MAX;
                lemma_sum_step(
                    price_volume as int,
                    (t.price as int) * (t.quantity as int),
                    i as int,
                    WINDOW_CAPACITY_MAX as int,
                    TRADE_PRICE_VOLUME_MAX as int,
                );
                lemma_sum_step(
                    volume as int,
                    t.quantity as int,
                    i as int,
                    WINDOW_CAPACITY_MAX as int,
                    AMOUNT_MAX as int,
                );
            }
            price_volume = price_volume + (t.price as u128) * (t.quantity as u128);
            volume = volume + (t.quantity as u128);
            i = i + 1;
        }
        proof {
            assert(w.take(n as int) =~= w);
        }
        VWAPResult { pair: trade.trade_pair, price_volume, volume }
    }
}

/// The window an aggregator of capacity `cap` holds after consuming the
/// whole sequence `trades` from an empty start, one [`push_evict`] per trade.
pub open spec fn run_window(trades: Seq<Trade>, cap: int) -> Seq<Trade>
    decreases trades.len(),
{
    if trades.len() == 0 {
        Seq::empty()
    } else {
        push_evict(run_window(trades.drop_last(), cap), trades.last(), cap)
    }
}

/// Law: for any sequence of trades fed to an aggregator of capacity
/// `cap >= 1`, the window never exceeds `cap` entries and holds exactly the
/// `cap` (or fewer) most recently appended trades, in arrival order.
pub proof fn lemma_window_holds_most_recent(trades: Seq<Trade>, cap: int)
    requires
        cap >= 1,
    ensures
        run_window(trades, cap).len() == if trades.len() <= cap { trades.len() as int } else { cap },
        run_window(trades, cap) =~= trades.skip(
            if trades.len() <= cap { 0 } else { trades.len() - cap },
        ),
    decreases trades.len(),
{
    if trades.len() > 0 {
        let pre = trades.drop_last();
        lemma_window_holds_most_recent(pre, cap);
        let wpre = run_window(pre, cap);
        assert(trades =~= pre.push(trades.last()));
        if wpre.len() + 1 > cap {
            assert(run_window(trades, cap) =~= wpre.push(trades.last()).drop_first());
        }
    }
}

/// Law: when every trade in a window has the same price `p`, the VWAP of
/// the window is exactly `p`: the numerator equals `p` times the denominator.
pub proof fn lemma_uniform_price_vwap(w: Seq<Trade>, p: u64)
    requires
        forall|i: int| 0 <= i < w.len() ==> (#[trigger] w[i]).price == p,
    ensures
        sum_price_volume(w) == p * sum_volume(w),
    decreases w.len(),
{
    if w.len() == 0 {
        assert(p * 0 == 0) by (nonlinear_arith);
    } else {
        lemma_uniform_price_vwap(w.drop_last(), p);
        assert(p as int * (sum_volume(w.drop_last()) + w.last().quantity)
            == p * sum_volume(w.drop_last()) + p * w.last().quantity) by (nonlinear_arith);
    }
}

} // verus!
