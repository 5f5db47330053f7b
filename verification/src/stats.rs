//! Integer bookkeeping for ensemble statistics.
//!
//! Each particle's summary carries scattering-event counts and, per event
//! kind, histograms of angles and field phases binned over a fixed grid.
//! The aggregation of an ensemble sums those histograms bin by bin and
//! totals the event counts; both operations are exact integer arithmetic
//! and are verified here.  Placing a value on the grid (a floating-point
//! affine map) is the caller's concern: these counters take bin indices.

use vstd::prelude::*;

verus! {

/// The sum of a sequence of counters.
pub open spec fn sum_of(s: Seq<u32>) -> int
    decreases s.len(),
{
    if s.len() == 0 {
        0
    } else {
        sum_of(s.drop_last()) + s.last()
    }
}

/// A sum of counters is bounded by the count of them times the largest
/// counter value.
proof fn lemma_sum_of_bounds(s: Seq<u32>)
    ensures
        0 <= sum_of(s) <= s.len() * 0xffff_ffff,
    decreases s.len(),
{
    if s.len() > 0 {
        lemma_sum_of_bounds(s.drop_last());
    }
}

/// Appending one counter adds its value to the sum.
proof fn lemma_sum_of_push(s: Seq<u32>, v: u32)
    ensures
        sum_of(s.push(v)) == sum_of(s) + v,
{
    assert(s.push(v).drop_last() == s);
}

/// Total number of events over a list of per-particle counters (for the
/// ensemble mean of acoustic and optical scattering counts).
pub fn sum_counts(counts: &Vec<u32>) -> (total: u64)
    requires
        counts@.len() <= 0xffff_ffff,
    ensures
        total == sum_of(counts@),
{
    let mut total: u64 = 0;
    let mut k: usize = 0;
    while k < counts.len()
        invariant
            k <= counts@.len() <= 0xffff_ffff,
            total == sum_of(counts@.take(k as int)),
            total <= k * 0xffff_ffff,
        decreases counts@.len() - k,
    {
        proof {
            lemma_sum_of_push(counts@.take(k as int), counts@[k as int]);
            assert(counts@.take(k as int).push(counts@[k as int]) == counts@.take(k + 1));
        }
        total = total + counts[k] as u64;
        k = k + 1;
    }
    proof {
        assert(counts@.take(counts@.len() as int) == counts@);
    }
    total
}

/// A histogram's bins: how many events fell into each slot of a fixed
/// grid.  The grid itself (its bounds and bin width) is the caller's.
pub struct BinCounts {
    pub bins: Vec<usize>,
}

impl BinCounts {
    /// `n_bins` empty slots.
    pub fn new(n_bins: usize) -> (r: BinCounts)
        ensures
            r.bins@.len() == n_bins,
            forall|k: int| 0 <= k < n_bins ==> r.bins@[k] == 0,
    {
        let mut bins: Vec<usize> = Vec::new();
        let mut k: usize = 0;
        while k < n_bins
            invariant
                k <= n_bins,
                bins@.len() == k,
                forall|l: int| 0 <= l < k ==> bins@[l] == 0,
            decreases n_bins - k,
        {
            bins.push(0);
            k = k + 1;
        }
        BinCounts { bins }
    }

    /// One more event in slot `index`.
    pub fn record(&mut self, index: usize)
        requires
            index < old(self).bins@.len(),
            old(self).bins@[index as int] < usize::MAX,
        ensures
            final(self).bins@ == old(self).bins@.update(
                index as int,
                (old(self).bins@[index as int] + 1) as usize,
            ),
    {
        let v = self.bins[index];
        self.bins[index] = v + 1;
    }

    /// Add another histogram of the same shape slot by slot, as the
    /// ensemble aggregation does over all particles.  Returns true and
    /// updates the bins exactly when the shapes match and no slot
    /// overflows; otherwise returns false and leaves the bins unchanged.
    pub fn merge(&mut self, other: &BinCounts) -> (ok: bool)
        ensures
            ok == (old(self).bins@.len() == other.bins@.len() && forall|k: int|
                0 <= k < other.bins@.len() ==> old(self).bins@[k] + other.bins@[k] <= usize::MAX),
            ok ==> final(self).bins@.len() == old(self).bins@.len() && forall|k: int|
                0 <= k < other.bins@.len() ==> final(self).bins@[k] == old(self).bins@[k]
                    + other.bins@[k],
            !ok ==> final(self).bins@ == old(self).bins@,
    {
        if self.bins.len() != other.bins.len() {
            return false;
        }
        let n = self.bins.len();
        let mut k: usize = 0;
        while k < n
            invariant
                n == self.bins@.len() == other.bins@.len(),
                k <= n,
                forall|l: int| 0 <= l < k ==> self.bins@[l] + other.bins@[l] <= usize::MAX,
            decreases n - k,
        {
            if other.bins[k] > usize::MAX - self.bins[k] {
                return false;
            }
            k = k + 1;
        }
        let ghost before = self.bins@;
        let mut k: usize = 0;
        while k < n
            invariant
                n == self.bins@.len() == other.bins@.len() == before.len(),
                k <= n,
                forall|l: int| 0 <= l < before.len() ==> before[l] + other.bins@[l] <= usize::MAX,
                forall|l: int| 0 <= l < k ==> self.bins@[l] == before[l] + other.bins@[l],
                forall|l: int| k <= l < n ==> self.bins@[l] == before[l],
            decreases n - k,
        {
            proof {
                assert(self.bins@[k as int] == before[k as int]);
                assert(before[k as int] + other.bins@[k as int] <= usize::MAX);
            }
            let v = self.bins[k];
            self.bins[k] = v + other.bins[k];
            k = k + 1;
        }
        true
    }
}

} // verus!
