//! The scan-band choice of the live dashboard: sweep every band once, then
//! follow the policy, keeping a reserve of decisions for the least-scanned band.
use vstd::prelude::*;

use crate::periodic::ExplorationReserve;
use super::first_unvisited;

verus! {

/// The first band with the fewest scans.
pub fn least_scanned_band(scans: &[usize]) -> (band: usize)
    requires
        scans@.len() > 0,
    ensures
        band < scans@.len(),
        forall|b: int| 0 <= b < scans@.len() ==> scans@[band as int] <= scans@[b],
        forall|b: int| 0 <= b < band ==> scans@[b] > scans@[band as int],
{
    let mut best: usize = 0;
    let mut b: usize = 1;
    while b < scans.len()
        invariant
            1 <= b <= scans@.len(),
            best < b,
            forall|c: int| 0 <= c < b ==> scans@[best as int] <= scans@[c],
            forall|c: int| 0 <= c < best ==> scans@[c] > scans@[best as int],
        decreases scans@.len() - b,
    {
        if scans[b] < scans[best] {
            best = b;
        }
        b = b + 1;
    }
    best
}

/// The band of the next scan: the first never-scanned band while there is
/// one; afterwards the least-scanned band (the first of several) on a reserved
/// exploration decision and the policy's band otherwise.
pub fn select_scan_band(
    scans: &[usize],
    decision_index: usize,
    policy_band: usize,
    reserve: &ExplorationReserve,
) -> (band: usize)
    requires
        scans@.len() > 0,
    ensures
        (exists|b: int| 0 <= b < scans@.len() && scans@[b] == 0) ==> band < scans@.len()
            && scans@[band as int] == 0
            && forall|b: int| 0 <= b < band ==> scans@[b] != 0,
        (forall|b: int| 0 <= b < scans@.len() ==> scans@[b] != 0) ==> if ExplorationReserve::reserved(
            reserve.spacing(),
            decision_index as nat,
        ) {
            band < scans@.len() && (forall|b: int| 0 <= b < scans@.len() ==> scans@[band as int]
                <= scans@[b]) && forall|b: int| 0 <= b < band ==> scans@[b] > scans@[band as int]
        } else {
            band == policy_band
        },
{
    match first_unvisited(scans) {
        Some(band) => band,
        None => {
            let exploration_band = least_scanned_band(scans);
            reserve.select_band(decision_index, policy_band, exploration_band)
        },
    }
}

/// Scan counts after `k` steps of the initial sweep over `bands` bands.
pub open spec fn sweep_counts(bands: nat, k: nat) -> Seq<usize> {
    Seq::new(bands, |b: int| if b < k { 1usize } else { 0usize })
}

/// While the sweep is under way, the next band chosen is the first unscanned
/// one, so after as many decisions as there are bands every band has been
/// scanned exactly once, whatever the policy proposes.
pub proof fn lemma_initial_sweep(bands: nat, k: nat, chosen: nat)
    requires
        k < bands,
        chosen < bands,
        sweep_counts(bands, k)[chosen as int] == 0,
        forall|b: int| 0 <= b < chosen ==> sweep_counts(bands, k)[b] != 0,
    ensures
        chosen == k,
        sweep_counts(bands, k).update(chosen as int, 1usize) == sweep_counts(bands, k + 1),
{
    if chosen > k {
        assert(sweep_counts(bands, k)[k as int] == 0);
    }
    assert(sweep_counts(bands, k).update(chosen as int, 1usize) =~= sweep_counts(bands, k + 1));
}

} // verus!
