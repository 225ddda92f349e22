//! Estimation of the period and phase of a band's detection times.
use vstd::prelude::*;

verus! {

/// Every later element of `s` is at least as large as every earlier one.
pub open spec fn is_sorted(s: Seq<usize>) -> bool {
    forall|i: int, j: int| 0 <= i <= j < s.len() ==> s[i] <= s[j]
}

/// Every element of `s` is larger than the one before it.
pub open spec fn strictly_increasing(s: Seq<usize>) -> bool {
    forall|i: int| 0 <= i < s.len() - 1 ==> #[trigger] s[i] < s[i + 1]
}

/// The gaps between consecutive arrivals.
pub open spec fn intervals(arrivals: Seq<usize>) -> Seq<usize>
    recommends
        strictly_increasing(arrivals),
{
    Seq::new(
        (arrivals.len() - 1) as nat,
        |i: int| (arrivals[i + 1] - arrivals[i]) as usize,
    )
}

/// How many arrivals fall on `phase` modulo `period`.
pub open spec fn residue_count(arrivals: Seq<usize>, period: nat, phase: nat) -> nat
    decreases arrivals.len(),
{
    if arrivals.len() == 0 {
        0
    } else {
        residue_count(arrivals.drop_last(), period, phase) + if arrivals.last() as nat % period
            == phase {
            1nat
        } else {
            0nat
        }
    }
}

/// `phase` is the residue modulo `period` that most arrivals share; of several
/// equally common residues it is the largest. With a zero period it is 0.
pub open spec fn is_most_common_phase(arrivals: Seq<usize>, period: nat, phase: nat) -> bool {
    if period == 0 {
        phase == 0
    } else {
        &&& phase < period
        &&& forall|q: nat| q < period ==> residue_count(arrivals, period, q) <= residue_count(
            arrivals,
            period,
            phase,
        )
        &&& forall|q: nat| phase < q < period ==> residue_count(arrivals, period, q)
            < residue_count(arrivals, period, phase)
    }
}

/// Sorts `values` into ascending order (std's `sort_unstable`).
#[verifier::external_body]
fn sort_ascending(values: &mut Vec<usize>)
    ensures
        final(values)@.to_multiset() == old(values)@.to_multiset(),
        is_sorted(final(values)@),
{
    values.sort_unstable();
}

proof fn lemma_residue_count_push(arrivals: Seq<usize>, arrival: usize, period: nat, phase: nat)
    ensures
        residue_count(arrivals.push(arrival), period, phase) == residue_count(
            arrivals,
            period,
            phase,
        ) + if arrival as nat % period == phase {
            1nat
        } else {
            0nat
        },
{
    assert(arrivals.push(arrival).drop_last() =~= arrivals);
}

proof fn lemma_residue_count_bounded(arrivals: Seq<usize>, period: nat, phase: nat)
    ensures
        residue_count(arrivals, period, phase) <= arrivals.len(),
    decreases arrivals.len(),
{
    if arrivals.len() > 0 {
        lemma_residue_count_bounded(arrivals.drop_last(), period, phase);
    }
}

/// The residue modulo `period` shared by the most arrivals (the largest such
/// residue when several tie); 0 when `period` is 0.
pub fn most_common_phase(arrivals: &[usize], period: usize) -> (phase: usize)
    ensures
        is_most_common_phase(arrivals@, period as nat, phase as nat),
{
    if period == 0 {
        return 0;
    }
    let mut counts: Vec<usize> = Vec::new();
    let mut p: usize = 0;
    while p < period
        invariant
            p <= period,
            counts@.len() == p,
            forall|q: int| 0 <= q < p ==> counts@[q] == 0,
        decreases period - p,
    {
        counts.push(0);
        p = p + 1;
    }
    let mut i: usize = 0;
    while i < arrivals.len()
        invariant
            0 < period,
            i <= arrivals@.len(),
            counts@.len() == period,
            forall|q: int|
                0 <= q < period ==> #[trigger] counts@[q] == residue_count(
                    arrivals@.take(i as int),
                    period as nat,
                    q as nat,
                ),
        decreases arrivals@.len() - i,
    {
        let residue = arrivals[i] % period;
        proof {
            assert(arrivals@.take(i + 1) =~= arrivals@.take(i as int).push(arrivals@[i as int]));
            assert forall|q: int| 0 <= q < period implies #[trigger] residue_count(
                arrivals@.take(i + 1),
                period as nat,
                q as nat,
            ) == residue_count(arrivals@.take(i as int), period as nat, q as nat) + if q
                == residue {
                1nat
            } else {
                0nat
            } by {
                lemma_residue_count_push(
                    arrivals@.take(i as int),
                    arrivals@[i as int],
                    period as nat,
                    q as nat,
                );
            }
            lemma_residue_count_bounded(arrivals@.take(i as int), period as nat, residue as nat);
        }
        counts.set(residue, counts[residue] + 1);
        i = i + 1;
    }
    proof {
        assert(arrivals@.take(arrivals@.len() as int) =~= arrivals@);
    }
    let mut best: usize = 0;
    let mut q: usize = 1;
    while q < period
        invariant
            0 < period,
            1 <= q <= period,
            best < q,
            counts@.len() == period,
            forall|r: int|
                0 <= r < period ==> #[trigger] counts@[r] == residue_count(
                    arrivals@,
                    period as nat,
                    r as nat,
                ),
            forall|r: int| 0 <= r < q ==> counts@[r] <= counts@[best as int],
            forall|r: int| best < r < q ==> counts@[r] < counts@[best as int],
        decreases period - q,
    {
        if counts[q] >= counts[best] {
            best = q;
        }
        q = q + 1;
    }
    proof {
        assert forall|r: nat| r < period implies residue_count(arrivals@, period as nat, r)
            <= residue_count(arrivals@, period as nat, best as nat) by {
            assert(counts@[r as int] <= counts@[best as int]);
        }
        assert forall|r: nat| best < r < period implies residue_count(arrivals@, period as nat, r)
            < residue_count(arrivals@, period as nat, best as nat) by {
            assert(counts@[r as int] < counts@[best as int]);
        }
    }
    best
}

/// Arrival `i` falls at `first + i * period`.
pub open spec fn is_regular(arrivals: Seq<usize>, first: nat, period: nat) -> bool {
    forall|i: int| 0 <= i < arrivals.len() ==> #[trigger] arrivals[i] == first + i * period
}

proof fn lemma_regular_residues(arrivals: Seq<usize>, first: nat, period: nat, q: nat)
    requires
        period > 0,
        is_regular(arrivals, first, period),
    ensures
        residue_count(arrivals, period, q) == if q == first % period {
            arrivals.len()
        } else {
            0
        },
    decreases arrivals.len(),
{
    if arrivals.len() > 0 {
        let front = arrivals.drop_last();
        assert forall|i: int| 0 <= i < front.len() implies #[trigger] front[i] == first + i
            * period by {
            assert(front[i] == arrivals[i]);
        }
        lemma_regular_residues(front, first, period, q);
        let i = arrivals.len() - 1;
        assert(arrivals[i] == first + i * period);
        vstd::arithmetic::div_mod::lemma_mod_multiples_vanish(i, first as int, period as int);
        assert(period * i == i * period) by (nonlinear_arith);
        assert((arrivals.last() as nat) % period == first % period);
    }
}

/// Arrivals at a fixed period are recovered exactly: they are strictly
/// increasing, every fit of them finds that period, and the phase is the
/// residue of the first arrival.
pub proof fn lemma_regular_arrivals_are_recovered(
    arrivals: Seq<usize>,
    first: nat,
    period: nat,
    fit: PeriodFit,
)
    requires
        period > 0,
        arrivals.len() >= 2,
        is_regular(arrivals, first, period),
    ensures
        strictly_increasing(arrivals),
        PeriodicityEstimator::fits(arrivals, fit) ==> fit.period == period && fit.phase == first
            % period,
{
    assert forall|i: int| 0 <= i < arrivals.len() - 1 implies #[trigger] arrivals[i] < arrivals[i
        + 1] by {
        assert(arrivals[i] == first + i * period);
        assert(arrivals[i + 1] == first + (i + 1) * period);
        assert((i + 1) * period == i * period + period) by (nonlinear_arith);
    }
    let gaps = intervals(arrivals);
    assert forall|k: int| 0 <= k < gaps.len() implies #[trigger] gaps[k] == period by {
        assert(arrivals[k] == first + k * period);
        assert(arrivals[k + 1] == first + (k + 1) * period);
        assert((k + 1) * period == k * period + period) by (nonlinear_arith);
    }
    if PeriodicityEstimator::fits(arrivals, fit) {
        let sorted = fit.sorted_intervals@;
        let middle = (sorted.len() / 2) as int;
        sorted.to_multiset_ensures();
        gaps.to_multiset_ensures();
        assert(sorted.len() == gaps.len());
        assert(sorted.contains(sorted[middle]));
        assert(gaps.to_multiset().count(sorted[middle]) > 0);
        let k = choose|k: int| 0 <= k < gaps.len() && gaps[k] == sorted[middle];
        assert(gaps[k] == period);
        assert(fit.period == period);
        lemma_regular_residues(arrivals, first, period, first % period);
        lemma_regular_residues(arrivals, first, period, fit.phase as nat);
    }
}

/// The integer part of a periodicity estimate: the median gap between
/// arrivals as the period, the most common arrival residue as the phase, and
/// the gaps themselves in ascending order.
#[derive(Debug, Clone, PartialEq, Eq)]
pub struct PeriodFit {
    pub period: usize,
    pub phase: usize,
    pub sorted_intervals: Vec<usize>,
    pub samples: usize,
}

/// Estimates periods from at least `minimum_arrivals` arrival times.
#[derive(Debug, Clone)]
pub struct PeriodicityEstimator {
    minimum_arrivals: usize,
}

impl PeriodicityEstimator {
    /// The fewest arrivals from which an estimate is made.
    pub closed spec fn minimum(&self) -> nat {
        self.minimum_arrivals as nat
    }

    /// `fit` is the estimate made from `arrivals`.
    pub open spec fn fits(arrivals: Seq<usize>, fit: PeriodFit) -> bool {
        &&& fit.samples == arrivals.len()
        &&& fit.sorted_intervals@.to_multiset() == intervals(arrivals).to_multiset()
        &&& is_sorted(fit.sorted_intervals@)
        &&& fit.period == fit.sorted_intervals@[(fit.sorted_intervals@.len() / 2) as int]
        &&& is_most_common_phase(arrivals, fit.period as nat, fit.phase as nat)
    }

    pub fn new(minimum_arrivals: usize) -> (estimator: Self)
        requires
            minimum_arrivals >= 2,
        ensures
            estimator.minimum() == minimum_arrivals,
    {
        Self { minimum_arrivals }
    }

    /// Fits a period to `arrivals`: `None` when there are fewer than the
    /// minimum or they are not strictly increasing.
    pub fn fit(&self, arrivals: &[usize]) -> (fit: Option<PeriodFit>)
        requires
            self.minimum() >= 2,
        ensures
            fit is None <==> (arrivals@.len() < self.minimum() || !strictly_increasing(arrivals@)),
            fit matches Some(f) ==> Self::fits(arrivals@, f) && f.period > 0,
    {
        if arrivals.len() < self.minimum_arrivals {
            return None;
        }
        let mut values: Vec<usize> = Vec::new();
        let mut i: usize = 1;
        while i < arrivals.len()
            invariant
                1 <= i <= arrivals@.len(),
                arrivals@.len() >= 2,
                values@.len() == i - 1,
                forall|k: int| 0 <= k < i - 1 ==> #[trigger] arrivals@[k] < arrivals@[k + 1],
                forall|k: int|
                    0 <= k < i - 1 ==> #[trigger] values@[k] == arrivals@[k + 1] - arrivals@[k],
            decreases arrivals@.len() - i,
        {
            if arrivals[i - 1] >= arrivals[i] {
                proof {
                    let k = i - 1;
                    assert(!(arrivals@[k] < arrivals@[k + 1]));
                }
                return None;
            }
            values.push(arrivals[i] - arrivals[i - 1]);
            i = i + 1;
        }
        proof {
            assert(values@ =~= intervals(arrivals@));
        }
        sort_ascending(&mut values);
        proof {
            values@.to_multiset_ensures();
            intervals(arrivals@).to_multiset_ensures();
            assert forall|k: int| 0 <= k < values@.len() implies values@[k] > 0 by {
                assert(values@.to_multiset().count(values@[k]) > 0);
                assert(intervals(arrivals@).contains(values@[k]));
            }
        }
        let period = values[values.len() / 2];
        assert(period > 0);
        let phase = most_common_phase(arrivals, period);
        Some(PeriodFit { period, phase, sorted_intervals: values, samples: arrivals.len() })
    }
}

impl Default for PeriodicityEstimator {
    /// The estimator that needs three arrivals.
    fn default() -> (estimator: Self)
        ensures
            estimator.minimum() == 3,
    {
        Self::new(3)
    }
}

/// Collects the detection times of each band and fits periods to them.
pub struct PeriodicTracker {
    arrivals: Vec<Vec<usize>>,
    estimator: PeriodicityEstimator,
}

impl View for PeriodicTracker {
    /// The recorded detection times of each band, oldest first.
    type V = Seq<Seq<usize>>;

    closed spec fn view(&self) -> Seq<Seq<usize>> {
        Seq::new(self.arrivals@.len(), |band: int| self.arrivals@[band]@)
    }
}

impl PeriodicTracker {
    /// The estimator the tracker fits periods with.
    pub closed spec fn estimator(&self) -> PeriodicityEstimator {
        self.estimator
    }

    /// The arrivals of `band` after a detection at `time`: a repeat of the
    /// latest arrival is not recorded twice.
    pub open spec fn arrivals_after_detection(arrivals: Seq<usize>, time: usize) -> Seq<usize> {
        if arrivals.len() > 0 && arrivals.last() == time {
            arrivals
        } else {
            arrivals.push(time)
        }
    }

    /// A tracker of `num_bands` bands with nothing recorded.
    pub fn new(num_bands: usize, estimator: PeriodicityEstimator) -> (tracker: Self)
        ensures
            tracker@.len() == num_bands,
            forall|band: int| 0 <= band < num_bands ==> #[trigger] tracker@[band].len() == 0,
            tracker.estimator() == estimator,
    {
        let mut arrivals: Vec<Vec<usize>> = Vec::new();
        let mut band: usize = 0;
        while band < num_bands
            invariant
                band <= num_bands,
                arrivals@.len() == band,
                forall|b: int| 0 <= b < band ==> #[trigger] arrivals@[b]@.len() == 0,
            decreases num_bands - band,
        {
            arrivals.push(Vec::new());
            band = band + 1;
        }
        Self { arrivals, estimator }
    }

    /// Records a detection on `band` at `time`.
    pub fn record_detection(&mut self, band: usize, time: usize)
        requires
            band < old(self)@.len(),
        ensures
            final(self)@ == old(self)@.update(
                band as int,
                Self::arrivals_after_detection(old(self)@[band as int], time),
            ),
            final(self).estimator() == old(self).estimator(),
    {
        let ghost before = self@;
        let length = self.arrivals[band].len();
        let repeated = length > 0 && self.arrivals[band][length - 1] == time;
        if !repeated {
            self.arrivals[band].push(time);
        }
        proof {
            assert(self@ =~= before.update(
                band as int,
                Self::arrivals_after_detection(before[band as int], time),
            ));
        }
    }

    /// Fits a period to the arrivals of `band`; `None` for a band the tracker
    /// does not hold, or as the estimator decides.
    pub fn fit_band(&self, band: usize) -> (fit: Option<PeriodFit>)
        requires
            self.estimator().minimum() >= 2,
        ensures
            band >= self@.len() ==> fit is None,
            band < self@.len() ==> {
                &&& fit is None <==> (self@[band as int].len() < self.estimator().minimum()
                    || !strictly_increasing(self@[band as int]))
                &&& fit matches Some(f) ==> PeriodicityEstimator::fits(self@[band as int], f)
                    && f.period > 0
            },
    {
        if band < self.arrivals.len() {
            self.estimator.fit(self.arrivals[band].as_slice())
        } else {
            None
        }
    }
}

} // verus!
