//! Prediction of the next transmission window of a periodic emitter, and the
//! deterministic exploration reserve of the scan schedule.
use vstd::prelude::*;

verus! {

/// A half-open interval of time steps `[start, end_exclusive)`.
#[derive(Debug, Clone, Copy, PartialEq, Eq)]
pub struct PredictedWindow {
    pub start: usize,
    pub end_exclusive: usize,
}

/// The first occurrence after `current_time` of a schedule that starts at
/// `phase` and repeats every `period` steps; `phase` itself while it lies
/// ahead.
pub open spec fn next_occurrence(period: nat, phase: nat, current_time: nat) -> nat
    recommends
        current_time >= phase ==> period > 0,
{
    if current_time < phase {
        phase
    } else {
        phase + (((current_time - phase) as nat) / period + 1) * period
    }
}

/// The window of `window_duration` steps that opens at the next occurrence of
/// the periodic schedule after `current_time`.
pub fn next_window(
    period: usize,
    phase: usize,
    current_time: usize,
    window_duration: usize,
) -> (window: PredictedWindow)
    requires
        current_time >= phase ==> period > 0,
        next_occurrence(period as nat, phase as nat, current_time as nat) + window_duration
            <= usize::MAX,
    ensures
        window.start == next_occurrence(period as nat, phase as nat, current_time as nat),
        window.end_exclusive == window.start + window_duration,
{
    let start = if current_time < phase {
        phase
    } else {
        proof {
            let q = ((current_time - phase) as nat) / (period as nat);
            assert(q + 1 <= (q + 1) * period) by (nonlinear_arith)
                requires
                    period >= 1,
            ;
        }
        let cycles = (current_time - phase) / period + 1;
        proof {
            assert(cycles * period <= next_occurrence(
                period as nat,
                phase as nat,
                current_time as nat,
            ));
        }
        phase + cycles * period
    };
    PredictedWindow { start, end_exclusive: start + window_duration }
}

/// Whether `next_window` can be computed for these arguments: the period is
/// nonzero wherever it is divided by, and the window's end fits in a `usize`.
pub fn next_window_fits(
    period: usize,
    phase: usize,
    current_time: usize,
    window_duration: usize,
) -> (fits: bool)
    ensures
        fits == ((current_time >= phase ==> period > 0) && next_occurrence(
            period as nat,
            phase as nat,
            current_time as nat,
        ) + window_duration <= usize::MAX),
{
    let start = if current_time < phase {
        phase
    } else {
        if period == 0 {
            return false;
        }
        let whole = (current_time - phase) / period;
        if whole == usize::MAX {
            proof {
                assert((whole + 1) * period >= whole + 1) by (nonlinear_arith)
                    requires
                        period >= 1,
                ;
            }
            return false;
        }
        let cycles = whole + 1;
        match cycles.checked_mul(period) {
            Some(offset) => match offset.checked_add(phase) {
                Some(start) => start,
                None => return false,
            },
            None => return false,
        }
    };
    start.checked_add(window_duration).is_some()
}

/// The next occurrence lies after `current_time`, is on the schedule, and no
/// scheduled time between `current_time` and it is skipped.
pub proof fn lemma_next_occurrence_is_first(
    period: nat,
    phase: nat,
    current_time: nat,
    other: nat,
)
    requires
        period > 0,
    ensures
        next_occurrence(period, phase, current_time) > current_time,
        next_occurrence(period, phase, current_time) >= phase,
        (next_occurrence(period, phase, current_time) - phase) % (period as int) == 0,
        other >= phase && (other - phase) % (period as int) == 0 && other > current_time
            ==> other >= next_occurrence(period, phase, current_time),
{
    if current_time >= phase {
        let d = (current_time - phase) as int;
        let q = d / period as int;
        let p = period as int;
        assert(d == q * p + d % p) by (nonlinear_arith)
            requires
                p > 0,
                q == d / p,
        ;
        assert(0 <= d % p < p) by (nonlinear_arith)
            requires
                p > 0,
        ;
        assert(((q + 1) * p) % p == 0) by (nonlinear_arith)
            requires
                p > 0,
                q >= 0,
        ;
        assert(q >= 0) by (nonlinear_arith)
            requires
                p > 0,
                d >= 0,
                q == d / p,
        ;
        assert((q + 1) * p == q * p + p) by (nonlinear_arith);
        assert(q == ((current_time - phase) as nat) / period);
        assert(next_occurrence(period, phase, current_time) - phase == (q + 1) * p);
        if other >= phase && (other - phase) % p == 0 && other > current_time {
            let e = (other - phase) as int;
            let k = e / p;
            assert(e == k * p) by (nonlinear_arith)
                requires
                    p > 0,
                    k == e / p,
                    e % p == 0,
            ;
            assert(k * p > q * p);
            assert(k > q) by (nonlinear_arith)
                requires
                    k * p > q * p,
                    p > 0,
            ;
            assert(k * p >= (q + 1) * p) by (nonlinear_arith)
                requires
                    k >= q + 1,
                    p > 0,
            ;
        }
    }
}

/// Reserves a regular share of scan decisions for exploration: every
/// `interval`-th decision, counting from decision 0, explores. An interval of
/// 0 reserves none.
#[derive(Debug, Clone, Copy)]
pub struct ExplorationReserve {
    interval: usize,
}

impl ExplorationReserve {
    /// The number of decisions between two explorations; 0 when there are none.
    pub closed spec fn spacing(&self) -> nat {
        self.interval as nat
    }

    /// Whether decision `decision_index` is reserved for exploration.
    pub open spec fn reserved(spacing: nat, decision_index: nat) -> bool {
        spacing != 0 && decision_index % spacing == 0
    }

    /// With a nonzero spacing `k`, decision 0 explores, two exploring
    /// decisions lie at least `k` apart, and every `k` consecutive decisions
    /// hold one that explores: exactly one decision in every `k` consecutive
    /// ones is reserved. With spacing 0 none is.
    pub proof fn lemma_one_exploration_per_spacing(spacing: nat, first: nat, offset: nat)
        ensures
            spacing == 0 ==> !Self::reserved(spacing, first),
            spacing > 0 ==> Self::reserved(spacing, 0),
            spacing > 0 && 0 < offset < spacing && Self::reserved(spacing, first) ==> !Self::reserved(
                spacing,
                first + offset,
            ),
            spacing > 0 ==> Self::reserved(
                spacing,
                first + ((spacing - first % spacing) as nat) % spacing,
            ),
            spacing > 0 ==> ((spacing - first % spacing) as nat) % spacing < spacing,
    {
        if spacing > 0 {
            let k = spacing as int;
            let f = first as int;
            assert(0int % k == 0) by (nonlinear_arith)
                requires
                    k > 0,
            ;
            if 0 < offset < spacing && f % k == 0 {
                let o = offset as int;
                assert((f + o) % k == o) by (nonlinear_arith)
                    requires
                        k > 0,
                        f % k == 0,
                        0 < o < k,
                        f >= 0,
                ;
            }
            let r = f % k;
            assert(0 <= r < k) by (nonlinear_arith)
                requires
                    k > 0,
                    r == f % k,
            ;
            let step = (k - r) % k;
            assert(0 <= step < k) by (nonlinear_arith)
                requires
                    k > 0,
                    step == (k - r) % k,
            ;
            assert((f + step) % k == 0) by (nonlinear_arith)
                requires
                    k > 0,
                    r == f % k,
                    0 <= r < k,
                    step == (k - r) % k,
                    f >= 0,
            ;
        }
    }

    pub fn from_interval(interval: usize) -> (reserve: Self)
        ensures
            reserve.spacing() == interval,
    {
        Self { interval }
    }

    pub fn uses_exploration(&self, decision_index: usize) -> (explores: bool)
        ensures
            explores == Self::reserved(self.spacing(), decision_index as nat),
    {
        if self.interval == 0 {
            return false;
        }
        decision_index % self.interval == 0
    }

    /// `explore_band` for a reserved decision, `exploit_band` otherwise.
    pub fn select_band(&self, decision_index: usize, exploit_band: usize, explore_band: usize) -> (band:
        usize)
        ensures
            band == if Self::reserved(self.spacing(), decision_index as nat) {
                explore_band
            } else {
                exploit_band
            },
    {
        if self.uses_exploration(decision_index) {
            explore_band
        } else {
            exploit_band
        }
    }
}

} // verus!
