//! Scan schedulers that choose the frequency band of the next receiver scan.
pub mod dl_ppo;
pub mod sweep;

pub use dl_ppo::{check_prediction_width, HybridError};
pub use sweep::{least_scanned_band, select_scan_band};

use vstd::prelude::*;
use rand::rngs::StdRng;
use rand::{Rng, SeedableRng};

verus! {

#[verifier::external_type_specification]
#[verifier::external_body]
pub struct ExStdRng(StdRng);

/// A generator seeded from `seed` (rand's `StdRng::seed_from_u64`). The
/// generator's state is not modelled.
#[verifier::external_body]
fn seeded_rng(seed: u64) -> StdRng {
    StdRng::seed_from_u64(seed)
}

/// An index drawn from `0..bound` (rand's `Rng::gen_range`, which panics on an
/// empty range and on no other). Which index is drawn depends on the
/// generator's state; only that it lies in the range is stated.
#[verifier::external_body]
fn draw_index(rng: &mut StdRng, bound: usize) -> (index: usize)
    requires
        bound > 0,
    ensures
        index < bound,
    no_unwind
{
    rng.gen_range(0..bound)
}

/// The first band that has never been visited, if any.
pub fn first_unvisited(visits: &[usize]) -> (band: Option<usize>)
    ensures
        band matches Some(b) ==> b < visits@.len() && visits@[b as int] == 0 && forall|j: int|
            0 <= j < b ==> visits@[j] != 0,
        band is None ==> forall|j: int| 0 <= j < visits@.len() ==> visits@[j] != 0,
{
    let mut i: usize = 0;
    while i < visits.len()
        invariant
            i <= visits@.len(),
            forall|j: int| 0 <= j < i ==> visits@[j] != 0,
        decreases visits@.len() - i,
    {
        if visits[i] == 0 {
            return Some(i);
        }
        i = i + 1;
    }
    None
}

/// Chooses bands uniformly at random from a seeded generator.
pub struct RandomScheduler {
    num_bands: usize,
    rng: StdRng,
}

impl RandomScheduler {
    #[verifier::type_invariant]
    spec fn has_bands(&self) -> bool {
        self.num_bands > 0
    }

    /// The number of bands the scheduler chooses among.
    pub closed spec fn bands(&self) -> nat {
        self.num_bands as nat
    }

    pub fn new(num_bands: usize, seed: u64) -> (scheduler: Self)
        requires
            num_bands > 0,
        ensures
            scheduler.bands() == num_bands,
    {
        Self { num_bands, rng: seeded_rng(seed) }
    }

    /// A band drawn at random; always one of the scheduler's bands.
    pub fn select_band(&mut self) -> (band: usize)
        ensures
            band < old(self).bands(),
            final(self).bands() == old(self).bands(),
    {
        proof {
            use_type_invariant(&*self);
        }
        draw_index(&mut self.rng, self.num_bands)
    }

    pub fn reset(&mut self)
        ensures
            final(self).bands() == old(self).bands(),
    {
    }

    pub fn name(&self) -> (name: &'static str)
        ensures
            name@ == "random"@,
    {
        "random"
    }
}

/// Scans the bands in order, one per decision, wrapping around.
pub struct RoundRobinScheduler {
    num_bands: usize,
    next_band: usize,
}

impl RoundRobinScheduler {
    #[verifier::type_invariant]
    spec fn in_cycle(&self) -> bool {
        self.next_band < self.num_bands
    }

    /// The number of bands in the cycle.
    pub closed spec fn bands(&self) -> nat {
        self.num_bands as nat
    }

    /// The band the next decision selects.
    pub closed spec fn upcoming(&self) -> nat {
        self.next_band as nat
    }

    pub fn new(num_bands: usize) -> (scheduler: Self)
        requires
            num_bands > 0,
        ensures
            scheduler.bands() == num_bands,
            scheduler.upcoming() == 0,
    {
        Self { num_bands, next_band: 0 }
    }

    /// Selects the upcoming band and moves on to the following one.
    pub fn select_band(&mut self) -> (band: usize)
        ensures
            band == old(self).upcoming(),
            band < old(self).bands(),
            final(self).bands() == old(self).bands(),
            final(self).upcoming() == (old(self).upcoming() + 1) % old(self).bands(),
    {
        proof {
            use_type_invariant(&*self);
        }
        let selected_band = self.next_band;
        self.next_band = (self.next_band + 1) % self.num_bands;
        selected_band
    }

    /// Restarts the cycle at band 0.
    pub fn reset(&mut self)
        ensures
            final(self).bands() == old(self).bands(),
            final(self).upcoming() == 0,
    {
        proof {
            use_type_invariant(&*self);
        }
        self.next_band = 0;
    }

    pub fn name(&self) -> (name: &'static str)
        ensures
            name@ == "round-robin"@,
    {
        "round-robin"
    }

    /// The band selected `steps` decisions after the cycle stood at `start`.
    pub open spec fn band_after(start: nat, bands: nat, steps: nat) -> nat
        decreases steps,
    {
        if steps == 0 {
            start
        } else {
            (Self::band_after(start, bands, (steps - 1) as nat) + 1) % bands
        }
    }

    /// After a reset, the `k`-th selection (counting from 0) scans band `k mod n`:
    /// every band is scanned once per cycle, in order.
    pub proof fn lemma_cycle_from_reset(bands: nat, steps: nat)
        requires
            bands > 0,
        ensures
            Self::band_after(0, bands, steps) == steps % bands,
        decreases steps,
    {
        if steps > 0 {
            Self::lemma_cycle_from_reset(bands, (steps - 1) as nat);
            let prev = ((steps - 1) as nat) % bands;
            assert((prev + 1) % bands == steps % bands) by (nonlinear_arith)
                requires
                    bands > 0,
                    prev == ((steps - 1) as nat) % bands,
                    steps > 0,
            ;
            assert(Self::band_after(0, bands, steps) == (Self::band_after(
                0,
                bands,
                (steps - 1) as nat,
            ) + 1) % bands);
        } else {
            assert(0nat % bands == 0) by (nonlinear_arith)
                requires
                    bands > 0,
            ;
        }
    }
}

} // verus!
