//! The threshold monitor: per-battery crossing state and the poll step.
//!
//! A `Monitor` holds the threshold list and one cursor per battery seen so
//! far, keyed by a stable battery identifier. Each poll reports a battery's
//! integer charge percentage through [`Monitor::observe`], which returns how
//! many notifications to fire for that battery this cycle: one per threshold
//! boundary crossed since the previous poll, in either direction, and none
//! on the first observation of a battery.

use std::collections::HashMap;
use vstd::prelude::*;
use crate::bands::{
    band, band_index, dist, lemma_adjacent_descending, lemma_band_bounds, strictly_descending,
};

verus! {

broadcast use vstd::std_specs::hash::group_hash_axioms;

/// Per-battery threshold-crossing state over a fixed threshold list.
pub struct Monitor {
    thresholds: Vec<u8>,
    cursors: HashMap<u64, usize>,
}

impl Monitor {
    /// The threshold list, highest first.
    pub closed spec fn levels(self) -> Seq<u8> {
        self.thresholds@
    }

    /// The cursor of every battery seen so far: the band that battery was
    /// last confirmed in.
    pub closed spec fn state(self) -> Map<u64, usize> {
        self.cursors@
    }

    /// Well-formed: the thresholds descend strictly, and every cursor is a
    /// valid band index (`0 ..= levels().len()`; the top value means "below
    /// the lowest threshold").
    pub open spec fn wf(self) -> bool {
        &&& strictly_descending(self.levels())
        &&& forall|id: u64|
            #[trigger] self.state().contains_key(id) ==> self.state()[id] <= self.levels().len()
    }

    /// Builds a monitor over `thresholds` with no battery seen yet, or
    /// `None` exactly when the list is not strictly descending.
    pub fn new(thresholds: Vec<u8>) -> (m: Option<Monitor>)
        ensures
            m is Some <==> strictly_descending(thresholds@),
            m matches Some(mon) ==> {
                &&& mon.wf()
                &&& mon.levels() == thresholds@
                &&& mon.state() == Map::<u64, usize>::empty()
            },
    {
        let n = thresholds.len();
        let mut i: usize = 1;
        while i < n
            invariant
                n == thresholds@.len(),
                1 <= i,
                n > 0 ==> i <= n,
                forall|k: int| 0 < k < i && k < n ==> #[trigger] thresholds@[k] < thresholds@[k - 1],
            decreases n - i,
        {
            if thresholds[i - 1] <= thresholds[i] {
                assert(!strictly_descending(thresholds@));
                return None;
            }
            i += 1;
        }
        proof {
            lemma_adjacent_descending(thresholds@);
        }
        Some(Monitor { thresholds, cursors: HashMap::new() })
    }

    /// One poll of one battery: records that the battery identified by `id`
    /// is now at `percent`, moving its cursor to the band of `percent`, and
    /// returns how many notifications to fire — one per threshold boundary
    /// between the band last recorded for `id` and the new one, in either
    /// direction. The first observation of an identifier (also of a new
    /// battery appearing in a slot an old one vacated) only seeds its
    /// cursor: it fires nothing.
    pub fn observe(&mut self, id: u64, percent: u8) -> (fired: usize)
        requires
            old(self).wf(),
        ensures
            final(self).wf(),
            final(self).levels() == old(self).levels(),
            final(self).state() == old(self).state().insert(
                id,
                band(old(self).levels(), percent as int) as usize,
            ),
            old(self).state().contains_key(id) ==> fired == dist(
                band(old(self).levels(), percent as int),
                old(self).state()[id] as int,
            ),
            !old(self).state().contains_key(id) ==> fired == 0,
    {
        proof {
            lemma_band_bounds(self.thresholds@, percent as int);
        }
        let target = band_index(&self.thresholds, percent);
        let fired: usize = match self.cursors.get(&id) {
            Some(cur) => {
                if target >= *cur {
                    target - *cur
                } else {
                    *cur - target
                }
            },
            None => 0,
        };
        self.cursors.insert(id, target);
        proof {
            assert forall|id2: u64| #[trigger] self.cursors@.contains_key(id2)
                implies self.cursors@[id2] <= self.thresholds@.len() by {
                if id2 != id {
                    assert(old(self).state().contains_key(id2));
                }
            }
        }
        fired
    }

    /// The cursor recorded for `id`, or `None` if that battery has never
    /// been observed.
    pub fn cursor_of(&self, id: u64) -> (c: Option<usize>)
        ensures
            c matches Some(v) ==> self.state().contains_key(id) && v == self.state()[id],
            c is None ==> !self.state().contains_key(id),
    {
        match self.cursors.get(&id) {
            Some(v) => Some(*v),
            None => None,
        }
    }

    /// How many thresholds the monitor watches.
    pub fn level_count(&self) -> (n: usize)
        ensures
            n == self.levels().len(),
    {
        self.thresholds.len()
    }
}

/// The integer charge percentage `floor(100 * energy / energy_full)`,
/// clamped to at most 100 (sensor jitter can report slightly over full).
pub open spec fn percent_clamped(energy: int, energy_full: int) -> int
    recommends
        energy_full > 0,
{
    if 100 * energy / energy_full > 100 {
        100
    } else {
        100 * energy / energy_full
    }
}

/// The charge percentage of a battery reading, in `0 ..= 100`, or `None`
/// exactly when the full-charge energy is zero (a malformed reading: the
/// caller skips that battery for the cycle).
pub fn charge_percent(energy: u64, energy_full: u64) -> (r: Option<u8>)
    ensures
        r is Some <==> energy_full > 0,
        energy_full > 0 ==> r == Some(percent_clamped(energy as int, energy_full as int) as u8),
        r matches Some(p) ==> p <= 100,
{
    if energy_full == 0 {
        None
    } else {
        let q: u128 = 100 * (energy as u128) / (energy_full as u128);
        if q >= 100 {
            Some(100)
        } else {
            Some(q as u8)
        }
    }
}

/// If a battery's percentage stays in the band its cursor records, a poll
/// fires nothing and leaves the whole cursor map unchanged.
pub proof fn lemma_same_band_idempotent(
    ts: Seq<u8>,
    st: Map<u64, usize>,
    id: u64,
    prev: int,
    cur: int,
)
    requires
        st.contains_key(id),
        st[id] == band(ts, prev),
        band(ts, cur) == band(ts, prev),
    ensures
        dist(band(ts, cur), st[id] as int) == 0,
        st.insert(id, band(ts, cur) as usize) == st,
{
    lemma_band_bounds(ts, cur);
    assert(st.insert(id, band(ts, cur) as usize) =~= st);
}

} // verus!
