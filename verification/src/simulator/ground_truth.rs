//! Ground truth of the RF simulator.
//!
//! The transmission state of every (time, frequency band) cell is stored in a
//! compact bit-packed grid: cell `(time, band)` is bit `index % 64` of word
//! `index / 64`, where `index = time * num_bands + band`.
use vstd::prelude::*;

verus! {

/// Whether bit `bit` of `word` is set.
pub open spec fn word_bit(word: u64, bit: u64) -> bool {
    (word >> bit) & 1u64 == 1u64
}

/// The number of 64-bit words needed to hold `cells` bits.
pub open spec fn words_for(cells: nat) -> nat {
    if cells % 64 == 0 {
        cells / 64
    } else {
        cells / 64 + 1
    }
}

/// Bit `index` of a sequence of words, counting from the low bit of word 0.
pub open spec fn packed_bit(words: Seq<u64>, index: int) -> bool {
    word_bit(words[index / 64], (index % 64) as u64)
}

proof fn lemma_zero_has_no_bits(bit: u64)
    requires
        bit < 64,
    ensures
        !word_bit(0u64, bit),
{
    assert((0u64 >> bit) & 1u64 != 1u64) by (bit_vector)
        requires
            bit < 64,
    ;
}

proof fn lemma_mask_tests_bit(word: u64, bit: u64)
    requires
        bit < 64,
    ensures
        (word & (1u64 << bit) != 0u64) == word_bit(word, bit),
{
    assert((word & (1u64 << bit) != 0u64) == ((word >> bit) & 1u64 == 1u64)) by (bit_vector)
        requires
            bit < 64,
    ;
}

proof fn lemma_set_bit(word: u64, bit: u64, other: u64)
    requires
        bit < 64,
        other < 64,
    ensures
        word_bit(word | (1u64 << bit), other) == (other == bit || word_bit(word, other)),
{
    assert((((word | (1u64 << bit)) >> other) & 1u64 == 1u64) == (other == bit || (word
        >> other) & 1u64 == 1u64)) by (bit_vector)
        requires
            bit < 64,
            other < 64,
    ;
}

proof fn lemma_clear_bit(word: u64, bit: u64, other: u64)
    requires
        bit < 64,
        other < 64,
    ensures
        word_bit(word & !(1u64 << bit), other) == (other != bit && word_bit(word, other)),
{
    assert((((word & !(1u64 << bit)) >> other) & 1u64 == 1u64) == (other != bit && (word
        >> other) & 1u64 == 1u64)) by (bit_vector)
        requires
            bit < 64,
            other < 64,
    ;
}

/// Distinct cells of a grid with `num_bands` columns have distinct indices.
proof fn lemma_cell_index_injective(t1: int, b1: int, t2: int, b2: int, num_bands: int)
    requires
        0 <= b1 < num_bands,
        0 <= b2 < num_bands,
        0 <= t1,
        0 <= t2,
        t1 * num_bands + b1 == t2 * num_bands + b2,
    ensures
        t1 == t2,
        b1 == b2,
{
    if t1 < t2 {
        assert(t1 * num_bands + num_bands <= t2 * num_bands) by (nonlinear_arith)
            requires
                t1 < t2,
                0 < num_bands,
        ;
    } else if t2 < t1 {
        assert(t2 * num_bands + num_bands <= t1 * num_bands) by (nonlinear_arith)
            requires
                t2 < t1,
                0 < num_bands,
        ;
    }
}

/// Every cell of the grid lies below `num_bands * time_horizon`.
proof fn lemma_cell_index_in_grid(time: int, band: int, num_bands: int, time_horizon: int)
    requires
        0 <= time < time_horizon,
        0 <= band < num_bands,
    ensures
        0 <= time * num_bands + band < num_bands * time_horizon,
{
    assert(0 <= time * num_bands + band < num_bands * time_horizon) by (nonlinear_arith)
        requires
            0 <= time < time_horizon,
            0 <= band < num_bands,
    ;
}

/// The transmission state of a `time_horizon` x `num_bands` grid, one bit per cell.
#[derive(Debug, Clone, PartialEq, Eq)]
pub struct GroundTruth {
    pub num_bands: usize,
    pub time_horizon: usize,
    bits: Vec<u64>,
}

impl View for GroundTruth {
    /// Row `time` holds one entry per band: whether that band is transmitting then.
    type V = Seq<Seq<bool>>;

    closed spec fn view(&self) -> Seq<Seq<bool>> {
        Seq::new(
            self.time_horizon as nat,
            |time: int|
                Seq::new(
                    self.num_bands as nat,
                    |band: int| packed_bit(self.bits@, time * self.num_bands + band),
                ),
        )
    }
}

impl GroundTruth {
    /// The number of frequency bands (columns).
    pub closed spec fn bands(&self) -> nat {
        self.num_bands as nat
    }

    /// The number of time steps (rows).
    pub closed spec fn horizon(&self) -> nat {
        self.time_horizon as nat
    }

    /// The grid fits in memory and the storage holds exactly one bit per cell.
    pub closed spec fn wf(&self) -> bool {
        &&& self.num_bands * self.time_horizon <= usize::MAX
        &&& self.bits@.len() == words_for((self.num_bands * self.time_horizon) as nat)
    }

    /// An all-quiet grid of `time_horizon` rows and `num_bands` columns.
    pub open spec fn quiet_grid(num_bands: nat, time_horizon: nat) -> Seq<Seq<bool>> {
        Seq::new(time_horizon, |time: int| Seq::new(num_bands, |band: int| false))
    }

    /// The grid after cell `(time, band)` is set to `transmitting`; cells outside
    /// the grid are not stored, so setting one leaves the grid as it is.
    pub open spec fn grid_after_set(
        grid: Seq<Seq<bool>>,
        time: int,
        band: int,
        transmitting: bool,
    ) -> Seq<Seq<bool>> {
        if 0 <= time < grid.len() && 0 <= band < grid[time].len() {
            grid.update(time, grid[time].update(band, transmitting))
        } else {
            grid
        }
    }

    /// The value read back from cell `(time, band)`: false outside the grid.
    pub open spec fn cell(grid: Seq<Seq<bool>>, time: int, band: int) -> bool {
        0 <= time < grid.len() && 0 <= band < grid[time].len() && grid[time][band]
    }

    /// Reading a cell after a write gives back the written value; every other
    /// cell reads as before. Writes outside the grid change nothing.
    pub proof fn lemma_read_after_write(
        grid: Seq<Seq<bool>>,
        time: int,
        band: int,
        transmitting: bool,
        read_time: int,
        read_band: int,
    )
        ensures
            Self::cell(Self::grid_after_set(grid, time, band, transmitting), read_time, read_band)
                == if read_time == time && read_band == band && Self::cell_exists(grid, time, band) {
                transmitting
            } else {
                Self::cell(grid, read_time, read_band)
            },
    {
    }

    /// Whether `(time, band)` is a cell of the grid.
    pub open spec fn cell_exists(grid: Seq<Seq<bool>>, time: int, band: int) -> bool {
        0 <= time < grid.len() && 0 <= band < grid[time].len()
    }

    /// A second write to a cell replaces the first.
    pub proof fn lemma_last_write_wins(
        grid: Seq<Seq<bool>>,
        time: int,
        band: int,
        first: bool,
        second: bool,
    )
        ensures
            Self::grid_after_set(Self::grid_after_set(grid, time, band, first), time, band, second)
                == Self::grid_after_set(grid, time, band, second),
    {
        let once = Self::grid_after_set(grid, time, band, second);
        let twice = Self::grid_after_set(Self::grid_after_set(grid, time, band, first), time, band, second);
        if Self::cell_exists(grid, time, band) {
            assert(twice[time] =~= once[time]);
            assert(twice =~= once);
        }
    }

    /// A new grid reads quiet at every cell.
    pub proof fn lemma_quiet_grid_reads_quiet(num_bands: nat, time_horizon: nat, time: int, band: int)
        ensures
            !Self::cell(Self::quiet_grid(num_bands, time_horizon), time, band),
    {
    }

    /// The shape of the grid follows the dimensions.
    pub proof fn lemma_shape(&self)
        requires
            self.wf(),
        ensures
            self@.len() == self.horizon(),
            forall|time: int| 0 <= time < self.horizon() ==> #[trigger] self@[time].len() == self.bands(),
    {
    }

    /// Creates an all-quiet grid.
    pub fn new(num_bands: usize, time_horizon: usize) -> (ground_truth: Self)
        requires
            num_bands * time_horizon <= usize::MAX,
        ensures
            ground_truth.wf(),
            ground_truth.bands() == num_bands,
            ground_truth.horizon() == time_horizon,
            ground_truth@ == Self::quiet_grid(num_bands as nat, time_horizon as nat),
            ground_truth.storage_words() == words_for((num_bands * time_horizon) as nat),
    {
        let cell_count = num_bands * time_horizon;
        let word_count = if cell_count % 64 == 0 {
            cell_count / 64
        } else {
            cell_count / 64 + 1
        };
        let bits = vec![0u64; word_count];
        let ground_truth = GroundTruth { num_bands, time_horizon, bits };
        proof {
            assert forall|i: int| 0 <= i < word_count implies ground_truth.bits@[i] == 0u64 by {
                assert(cloned(0u64, ground_truth.bits@[i]));
            }
            assert forall|time: int, band: int|
                0 <= time < time_horizon && 0 <= band < num_bands implies !#[trigger] packed_bit(
                ground_truth.bits@,
                time * num_bands + band,
            ) by {
                let index = time * num_bands + band;
                lemma_cell_index_in_grid(time, band, num_bands as int, time_horizon as int);
                assert(index / 64 < word_count);
                lemma_zero_has_no_bits((index % 64) as u64);
            }
            let quiet = Self::quiet_grid(num_bands as nat, time_horizon as nat);
            assert forall|time: int| 0 <= time < time_horizon implies #[trigger] ground_truth@[time]
                =~= quiet[time] by {
                assert forall|band: int| 0 <= band < num_bands implies ground_truth@[time][band]
                    == quiet[time][band] by {
                    assert(!packed_bit(ground_truth.bits@, time * num_bands + band));
                }
            }
            assert(ground_truth@ =~= quiet);
        }
        ground_truth
    }

    /// The number of 64-bit words of storage.
    pub closed spec fn storage_words(&self) -> nat {
        self.bits@.len()
    }

    /// The number of frequency bands.
    pub fn num_bands(&self) -> (count: usize)
        ensures
            count == self.bands(),
    {
        self.num_bands
    }

    /// The number of time steps.
    pub fn time_horizon(&self) -> (count: usize)
        ensures
            count == self.horizon(),
    {
        self.time_horizon
    }

    /// The number of 64-bit words the grid occupies.
    pub fn word_count(&self) -> (count: usize)
        ensures
            count == self.storage_words(),
    {
        self.bits.len()
    }

    fn location(&self, time: usize, band: usize) -> (location: (usize, usize))
        requires
            self.wf(),
            time < self.time_horizon,
            band < self.num_bands,
        ensures
            location.0 == (time * self.num_bands + band) / 64,
            location.1 == (time * self.num_bands + band) % 64,
            location.0 < self.bits@.len(),
            location.1 < 64,
    {
        proof {
            lemma_cell_index_in_grid(
                time as int,
                band as int,
                self.num_bands as int,
                self.time_horizon as int,
            );
        }
        let index = time * self.num_bands + band;
        (index / 64, index % 64)
    }

    /// Whether `band` is transmitting at `time`; cells outside the grid are quiet.
    pub fn is_transmitting(&self, time: usize, band: usize) -> (transmitting: bool)
        requires
            self.wf(),
        ensures
            transmitting == Self::cell(self@, time as int, band as int),
    {
        if time >= self.time_horizon || band >= self.num_bands {
            false
        } else {
            let (word, bit) = self.location(time, band);
            proof {
                lemma_mask_tests_bit(self.bits@[word as int], bit as u64);
            }
            self.bits[word] & (1u64 << (bit as u64)) != 0
        }
    }

    /// Records the transmission state of one cell; cells outside the grid are ignored.
    pub fn set_transmission(&mut self, time: usize, band: usize, transmitting: bool)
        requires
            old(self).wf(),
        ensures
            final(self).wf(),
            final(self).bands() == old(self).bands(),
            final(self).horizon() == old(self).horizon(),
            final(self).storage_words() == old(self).storage_words(),
            final(self)@ == Self::grid_after_set(
                old(self)@,
                time as int,
                band as int,
                transmitting,
            ),
    {
        if time < self.time_horizon && band < self.num_bands {
            let (word, bit) = self.location(time, band);
            let mask = 1u64 << (bit as u64);
            let old_word = self.bits[word];
            let new_word = if transmitting {
                old_word | mask
            } else {
                old_word & !mask
            };
            let ghost old_bits = self.bits@;
            self.bits.set(word, new_word);
            proof {
                let nb = self.num_bands as int;
                let index = time * nb + band;
                assert forall|t: int, b: int| 0 <= t < self.time_horizon && 0 <= b < nb implies
                    #[trigger] packed_bit(self.bits@, t * nb + b) == (if t == time && b == band {
                    transmitting
                } else {
                    packed_bit(old_bits, t * nb + b)
                }) by {
                    let other = t * nb + b;
                    lemma_cell_index_in_grid(t, b, nb, self.time_horizon as int);
                    if other / 64 == word {
                        if transmitting {
                            lemma_set_bit(old_word, bit as u64, (other % 64) as u64);
                        } else {
                            lemma_clear_bit(old_word, bit as u64, (other % 64) as u64);
                        }
                        if other % 64 == bit {
                            assert(other == index);
                            lemma_cell_index_injective(t, b, time as int, band as int, nb);
                        } else {
                            assert(other != index);
                            if t == time && b == band {
                                assert(other == index);
                            }
                        }
                    } else {
                        if t == time && b == band {
                            assert(other == index);
                        }
                    }
                }
                let expected = Self::grid_after_set(
                    old(self)@,
                    time as int,
                    band as int,
                    transmitting,
                );
                assert forall|t: int| 0 <= t < self.time_horizon implies #[trigger] self@[t]
                    =~= expected[t] by {
                    assert forall|b: int| 0 <= b < nb implies self@[t][b] == expected[t][b] by {
                        assert(packed_bit(self.bits@, t * nb + b) == (if t == time && b == band {
                            transmitting
                        } else {
                            packed_bit(old_bits, t * nb + b)
                        }));
                    }
                }
                assert(self@ =~= expected);
            }
        } else {
            proof {
                assert(self@ =~= Self::grid_after_set(
                    old(self)@,
                    time as int,
                    band as int,
                    transmitting,
                ));
            }
        }
    }
}

} // verus!
