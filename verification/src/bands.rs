//! Bands of the percentage axis.
//!
//! A strictly descending threshold list `ts` partitions percentages into
//! bands: band 0 lies at or above the highest threshold, band `ts.len()`
//! lies below the lowest, and a percentage sits in band `i` exactly when
//! `i` thresholds are strictly above it (a percentage equal to a threshold
//! has reached that threshold's band: boundaries are inclusive on the lower
//! side). This module defines the band of a percentage, the executable scan
//! that computes it, and the counting lemmas behind the monitor's
//! one-notification-per-boundary guarantee.

use vstd::prelude::*;

verus! {

/// `ts` is strictly descending: every threshold is strictly above each later one.
pub open spec fn strictly_descending(ts: Seq<u8>) -> bool {
    forall|i: int, j: int| 0 <= i < j < ts.len() ==> ts[i] > ts[j]
}

/// The band of percentage `p`: how many thresholds lie strictly above `p`.
pub open spec fn band(ts: Seq<u8>, p: int) -> int
    decreases ts.len(),
{
    if ts.len() == 0 {
        0
    } else if ts[0] > p {
        1 + band(ts.drop_first(), p)
    } else {
        band(ts.drop_first(), p)
    }
}

/// Distance between two band indices: the number of boundaries between them.
pub open spec fn dist(a: int, b: int) -> int {
    if a >= b {
        a - b
    } else {
        b - a
    }
}

/// How many thresholds are strictly above `lo` and at or below `hi`: the
/// boundaries a move between `lo` and `hi` traverses, in either direction.
pub open spec fn boundaries_between(ts: Seq<u8>, lo: int, hi: int) -> int
    decreases ts.len(),
{
    if ts.len() == 0 {
        0
    } else {
        (if lo < ts[0] && ts[0] <= hi {
            1int
        } else {
            0int
        }) + boundaries_between(ts.drop_first(), lo, hi)
    }
}

/// Notifications fired along a whole percentage history of one battery: the
/// first entry is the initial observation (which fires nothing), and each
/// later entry fires once per band boundary between it and its predecessor.
pub open spec fn total_fired(ts: Seq<u8>, ps: Seq<int>) -> int
    decreases ps.len(),
{
    if ps.len() <= 1 {
        0
    } else {
        total_fired(ts, ps.drop_last()) + dist(
            band(ts, ps[ps.len() - 2]),
            band(ts, ps[ps.len() - 1]),
        )
    }
}

/// A band index is always between 0 and the number of thresholds.
pub proof fn lemma_band_bounds(ts: Seq<u8>, p: int)
    ensures
        0 <= band(ts, p) <= ts.len(),
    decreases ts.len(),
{
    if ts.len() > 0 {
        lemma_band_bounds(ts.drop_first(), p);
    }
}

/// A higher percentage is in the same or a higher (numerically smaller) band.
pub proof fn lemma_band_antitone(ts: Seq<u8>, lo: int, hi: int)
    requires
        lo <= hi,
    ensures
        band(ts, hi) <= band(ts, lo),
    decreases ts.len(),
{
    if ts.len() > 0 {
        lemma_band_antitone(ts.drop_first(), lo, hi);
    }
}

/// If the thresholds up to `i` are above `p` and the rest are at or below
/// `p`, then `p` sits in band `i`.
pub proof fn lemma_band_split(ts: Seq<u8>, p: int, i: int)
    requires
        0 <= i <= ts.len(),
        forall|k: int| 0 <= k < i ==> ts[k] > p,
        forall|k: int| i <= k < ts.len() ==> ts[k] <= p,
    ensures
        band(ts, p) == i,
    decreases ts.len(),
{
    if ts.len() > 0 {
        if i == 0 {
            lemma_band_split(ts.drop_first(), p, 0);
        } else {
            lemma_band_split(ts.drop_first(), p, i - 1);
        }
    }
}

proof fn lemma_band_difference(ts: Seq<u8>, lo: int, hi: int)
    requires
        lo <= hi,
    ensures
        band(ts, lo) - band(ts, hi) == boundaries_between(ts, lo, hi),
    decreases ts.len(),
{
    if ts.len() > 0 {
        lemma_band_difference(ts.drop_first(), lo, hi);
    }
}

/// The number of notifications a poll fires — the distance between the band
/// of the previous percentage and the band of the current one — equals the
/// number of threshold boundaries strictly between the two percentages
/// (inclusive of the lower bound, per band semantics), in either direction.
pub proof fn lemma_fired_counts_boundaries(ts: Seq<u8>, prev: int, cur: int)
    ensures
        prev <= cur ==> dist(band(ts, cur), band(ts, prev)) == boundaries_between(ts, prev, cur),
        cur <= prev ==> dist(band(ts, cur), band(ts, prev)) == boundaries_between(ts, cur, prev),
{
    if prev <= cur {
        lemma_band_antitone(ts, prev, cur);
        lemma_band_difference(ts, prev, cur);
    }
    if cur <= prev {
        lemma_band_antitone(ts, cur, prev);
        lemma_band_difference(ts, cur, prev);
    }
}

/// A battery whose percentage never leaves one band — in particular one
/// whose percentage never changes — fires nothing after its initial
/// observation, over a history of any length.
pub proof fn lemma_steady_band_fires_nothing(ts: Seq<u8>, ps: Seq<int>)
    requires
        forall|i: int| 0 <= i < ps.len() ==> band(ts, #[trigger] ps[i]) == band(ts, ps[0]),
    ensures
        total_fired(ts, ps) == 0,
    decreases ps.len(),
{
    if ps.len() > 1 {
        let pre = ps.drop_last();
        assert(forall|i: int| 0 <= i < pre.len() ==> pre[i] == ps[i]);
        lemma_steady_band_fires_nothing(ts, pre);
        assert(band(ts, ps[ps.len() - 2]) == band(ts, ps[ps.len() - 1]));
    }
}

proof fn lemma_descends_from_adjacent(ts: Seq<u8>, i: int, j: int)
    requires
        forall|k: int| 0 < k < ts.len() ==> #[trigger] ts[k] < ts[k - 1],
        0 <= i < j < ts.len(),
    ensures
        ts[i] > ts[j],
    decreases j - i,
{
    assert(ts[j - 1] > ts[j]);
    if i < j - 1 {
        lemma_descends_from_adjacent(ts, i, j - 1);
    }
}

/// A list whose every adjacent pair descends is strictly descending overall.
pub proof fn lemma_adjacent_descending(ts: Seq<u8>)
    requires
        forall|k: int| 0 < k < ts.len() ==> #[trigger] ts[k] < ts[k - 1],
    ensures
        strictly_descending(ts),
{
    assert forall|i: int, j: int| 0 <= i < j < ts.len() implies ts[i] > ts[j] by {
        lemma_descends_from_adjacent(ts, i, j);
    }
}

/// The band of `percent`: the index of the first threshold at or below it,
/// found by the same downward scan that seeds a new battery's cursor.
pub fn band_index(levels: &Vec<u8>, percent: u8) -> (i: usize)
    requires
        strictly_descending(levels@),
    ensures
        i == band(levels@, percent as int),
{
    let mut i: usize = 0;
    while i < levels.len() && levels[i] > percent
        invariant
            0 <= i <= levels@.len(),
            forall|k: int| 0 <= k < i ==> levels@[k] > percent,
            strictly_descending(levels@),
        decreases levels@.len() - i,
    {
        i += 1;
    }
    proof {
        assert forall|k: int| i <= k < levels@.len() implies levels@[k] <= percent by {
            if k > i {
                assert(levels@[i as int] > levels@[k]);
            }
        }
        lemma_band_split(levels@, percent as int, i as int);
    }
    i
}

} // verus!
