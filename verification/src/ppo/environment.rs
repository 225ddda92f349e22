//! The receiver-observable history of a PPO scan episode.
use vstd::prelude::*;

verus! {

/// Why the PPO environment refused a request.
#[derive(Debug, Clone, PartialEq, Eq, Structural)]
pub enum PpoError {
    InvalidAction { action: usize, num_bands: usize },
    PredictionWidthMismatch,
    EpisodeComplete,
}

/// Whether a step with `action` may be taken at `current_time`: the action
/// must name a band, and the episode must not be over.
pub fn check_step(action: usize, num_bands: usize, current_time: usize, time_horizon: usize) -> (checked:
    Result<(), PpoError>)
    ensures
        action >= num_bands ==> checked == Err::<(), PpoError>(
            PpoError::InvalidAction { action, num_bands },
        ),
        action < num_bands && current_time >= time_horizon ==> checked == Err::<(), PpoError>(
            PpoError::EpisodeComplete,
        ),
        action < num_bands && current_time < time_horizon ==> checked == Ok::<(), PpoError>(()),
{
    if action >= num_bands {
        return Err(PpoError::InvalidAction { action, num_bands });
    }
    if current_time >= time_horizon {
        return Err(PpoError::EpisodeComplete);
    }
    Ok(())
}

/// What the receiver has seen of each band during an episode: when it last
/// scanned and last detected activity there, how often it observed and
/// detected, how often the band was the selected action, and the latest action.
pub struct ScanHistory {
    last_scan: Vec<Option<usize>>,
    last_detection: Vec<Option<usize>>,
    observations: Vec<usize>,
    detections: Vec<usize>,
    visits: Vec<usize>,
    previous_action: Option<usize>,
}

/// The history of one band.
pub struct BandHistory {
    pub last_scan: Option<usize>,
    pub last_detection: Option<usize>,
    pub observations: usize,
    pub detections: usize,
    pub visits: usize,
}

impl ScanHistory {
    /// The number of bands tracked.
    pub closed spec fn bands(&self) -> nat {
        self.visits@.len()
    }

    pub closed spec fn wf(&self) -> bool {
        &&& self.last_scan@.len() == self.visits@.len()
        &&& self.last_detection@.len() == self.visits@.len()
        &&& self.observations@.len() == self.visits@.len()
        &&& self.detections@.len() == self.visits@.len()
    }

    /// The history of `band`.
    pub closed spec fn band(&self, band: int) -> BandHistory {
        BandHistory {
            last_scan: self.last_scan@[band],
            last_detection: self.last_detection@[band],
            observations: self.observations@[band],
            detections: self.detections@[band],
            visits: self.visits@[band],
        }
    }

    /// The latest selected action.
    pub closed spec fn previous(&self) -> Option<usize> {
        self.previous_action
    }

    /// A band nothing has been seen of.
    pub open spec fn unseen(history: BandHistory) -> bool {
        &&& history.last_scan is None
        &&& history.last_detection is None
        &&& history.observations == 0
        &&& history.detections == 0
        &&& history.visits == 0
    }

    /// The history of a band after a step at `time` that selected `action`,
    /// in which the band was (or was not) monitored and (or not) reported active.
    pub open spec fn band_after_step(
        history: BandHistory,
        band: int,
        time: usize,
        action: usize,
        monitored: bool,
        reported: bool,
    ) -> BandHistory {
        BandHistory {
            last_scan: if monitored {
                Some(time)
            } else {
                history.last_scan
            },
            last_detection: if monitored && reported {
                Some(time)
            } else {
                history.last_detection
            },
            observations: if monitored {
                (history.observations + 1) as usize
            } else {
                history.observations
            },
            detections: if monitored && reported {
                (history.detections + 1) as usize
            } else {
                history.detections
            },
            visits: if band == action {
                (history.visits + 1) as usize
            } else {
                history.visits
            },
        }
    }

    /// A band is never detected more often than it is observed, a band with a
    /// detection has been scanned, and a band has a scan time exactly when it
    /// has been observed: every step keeps these facts.
    pub proof fn lemma_step_keeps_band_consistent(
        history: BandHistory,
        band: int,
        time: usize,
        action: usize,
        monitored: bool,
        reported: bool,
    )
        requires
            Self::band_consistent(history),
            history.observations < usize::MAX,
            history.visits < usize::MAX,
        ensures
            Self::band_consistent(
                Self::band_after_step(history, band, time, action, monitored, reported),
            ),
    {
    }

    /// Each step counts one observation in every monitored band, one detection
    /// in every monitored band reported active and one visit in the selected
    /// band, and leaves the other counts as they were: after `k` steps that
    /// monitor a band and report it active, its detection count has grown by `k`.
    pub proof fn lemma_step_counts(
        history: BandHistory,
        band: int,
        time: usize,
        action: usize,
        monitored: bool,
        reported: bool,
    )
        requires
            monitored ==> history.observations < usize::MAX,
            monitored && reported ==> history.detections < usize::MAX,
            band == action ==> history.visits < usize::MAX,
        ensures
            Self::band_after_step(history, band, time, action, monitored, reported).detections
                == history.detections + if monitored && reported {
                1int
            } else {
                0int
            },
            Self::band_after_step(history, band, time, action, monitored, reported).observations
                == history.observations + if monitored {
                1int
            } else {
                0int
            },
            Self::band_after_step(history, band, time, action, monitored, reported).visits
                == history.visits + if band == action {
                1int
            } else {
                0int
            },
            monitored ==> Self::band_after_step(
                history,
                band,
                time,
                action,
                monitored,
                reported,
            ).last_scan == Some(time),
            monitored && reported ==> Self::band_after_step(
                history,
                band,
                time,
                action,
                monitored,
                reported,
            ).last_detection == Some(time),
    {
    }

    /// Detections are observations, a detected band has been scanned, and a
    /// band has a scan time exactly when it has been observed.
    pub open spec fn band_consistent(history: BandHistory) -> bool {
        &&& history.detections <= history.observations
        &&& history.last_detection is Some ==> history.last_scan is Some
        &&& history.observations == 0 <==> history.last_scan is None
    }

    /// An unseen band is consistent.
    pub proof fn lemma_unseen_is_consistent(history: BandHistory)
        requires
            Self::unseen(history),
        ensures
            Self::band_consistent(history),
    {
    }

    /// A history of `num_bands` bands of which nothing has been seen.
    pub fn new(num_bands: usize) -> (history: Self)
        ensures
            history.wf(),
            history.bands() == num_bands,
            forall|band: int| 0 <= band < num_bands ==> Self::unseen(#[trigger] history.band(band)),
            history.previous() is None,
    {
        let mut last_scan: Vec<Option<usize>> = Vec::new();
        let mut last_detection: Vec<Option<usize>> = Vec::new();
        let mut observations: Vec<usize> = Vec::new();
        let mut detections: Vec<usize> = Vec::new();
        let mut visits: Vec<usize> = Vec::new();
        let mut band: usize = 0;
        while band < num_bands
            invariant
                band <= num_bands,
                last_scan@.len() == band,
                last_detection@.len() == band,
                observations@.len() == band,
                detections@.len() == band,
                visits@.len() == band,
                forall|b: int| 0 <= b < band ==> #[trigger] last_scan@[b] is None,
                forall|b: int| 0 <= b < band ==> #[trigger] last_detection@[b] is None,
                forall|b: int| 0 <= b < band ==> #[trigger] observations@[b] == 0,
                forall|b: int| 0 <= b < band ==> #[trigger] detections@[b] == 0,
                forall|b: int| 0 <= b < band ==> #[trigger] visits@[b] == 0,
            decreases num_bands - band,
        {
            last_scan.push(None);
            last_detection.push(None);
            observations.push(0);
            detections.push(0);
            visits.push(0);
            band = band + 1;
        }
        let history = ScanHistory {
            last_scan,
            last_detection,
            observations,
            detections,
            visits,
            previous_action: None,
        };
        proof {
            assert forall|b: int| 0 <= b < num_bands implies Self::unseen(
                #[trigger] history.band(b),
            ) by {
                assert(history.last_scan@[b] is None);
                assert(history.last_detection@[b] is None);
                assert(history.observations@[b] == 0);
                assert(history.detections@[b] == 0);
                assert(history.visits@[b] == 0);
            }
        }
        history
    }

    /// Records a step at `time` that selected `action`: every monitored band
    /// counts an observation, and a detection where the receiver reported
    /// activity; the selected band counts a visit.
    pub fn record_step(&mut self, time: usize, action: usize, monitored: &[bool], reported: &[bool])
        requires
            old(self).wf(),
            action < old(self).bands(),
            monitored@.len() >= old(self).bands(),
            reported@.len() >= old(self).bands(),
            forall|band: int|
                0 <= band < old(self).bands() && monitored@[band] ==> #[trigger] old(self).band(
                    band,
                ).observations < usize::MAX,
            forall|band: int|
                0 <= band < old(self).bands() && monitored@[band] && reported@[band]
                    ==> #[trigger] old(self).band(band).detections < usize::MAX,
            old(self).band(action as int).visits < usize::MAX,
        ensures
            final(self).wf(),
            final(self).bands() == old(self).bands(),
            forall|band: int|
                0 <= band < old(self).bands() ==> #[trigger] final(self).band(band)
                    == Self::band_after_step(
                    old(self).band(band),
                    band,
                    time,
                    action,
                    monitored@[band],
                    reported@[band],
                ),
            final(self).previous() == Some(action),
            forall|band: int|
                0 <= band < old(self).bands() ==> {
                    &&& #[trigger] final(self).band(band).detections == old(self).band(
                        band,
                    ).detections + if monitored@[band] && reported@[band] {
                        1int
                    } else {
                        0int
                    }
                    &&& final(self).band(band).observations == old(self).band(band).observations
                        + if monitored@[band] {
                        1int
                    } else {
                        0int
                    }
                    &&& final(self).band(band).visits == old(self).band(band).visits + if band
                        == action {
                        1int
                    } else {
                        0int
                    }
                },
    {
        let num_bands = self.visits.len();
        let ghost before = *self;
        let mut band: usize = 0;
        while band < num_bands
            invariant
                band <= num_bands,
                num_bands == before.bands(),
                self.wf(),
                self.bands() == num_bands,
                monitored@.len() >= num_bands,
                reported@.len() >= num_bands,
                before.wf(),
                forall|b: int|
                    0 <= b < num_bands && monitored@[b] ==> #[trigger] before.band(b).observations
                        < usize::MAX,
                forall|b: int|
                    0 <= b < num_bands && monitored@[b] && reported@[b]
                        ==> #[trigger] before.band(b).detections < usize::MAX,
                self.visits@ == before.visits@,
                forall|b: int|
                    0 <= b < band ==> {
                        let after = Self::band_after_step(
                            before.band(b),
                            b,
                            time,
                            action,
                            monitored@[b],
                            reported@[b],
                        );
                        &&& #[trigger] self.last_scan@[b] == after.last_scan
                        &&& self.last_detection@[b] == after.last_detection
                        &&& self.observations@[b] == after.observations
                        &&& self.detections@[b] == after.detections
                    },
                forall|b: int|
                    band <= b < num_bands ==> #[trigger] self.last_scan@[b]
                        == before.last_scan@[b],
                forall|b: int|
                    band <= b < num_bands ==> #[trigger] self.last_detection@[b]
                        == before.last_detection@[b],
                forall|b: int|
                    band <= b < num_bands ==> #[trigger] self.observations@[b]
                        == before.observations@[b],
                forall|b: int|
                    band <= b < num_bands ==> #[trigger] self.detections@[b]
                        == before.detections@[b],
            decreases num_bands - band,
        {
            if monitored[band] {
                proof {
                    assert(self.observations@[band as int] == before.observations@[band as int]);
                    assert(self.detections@[band as int] == before.detections@[band as int]);
                    assert(before.band(band as int).observations < usize::MAX);
                    if reported@[band as int] {
                        assert(before.band(band as int).detections < usize::MAX);
                    }
                }
                self.last_scan.set(band, Some(time));
                let observed = self.observations[band] + 1;
                self.observations.set(band, observed);
                if reported[band] {
                    self.last_detection.set(band, Some(time));
                    let detected = self.detections[band] + 1;
                    self.detections.set(band, detected);
                }
            }
            band = band + 1;
        }
        let visited = self.visits[action] + 1;
        self.visits.set(action, visited);
        self.previous_action = Some(action);
        proof {
            assert forall|b: int| 0 <= b < num_bands implies #[trigger] self.band(b)
                == Self::band_after_step(
                before.band(b),
                b,
                time,
                action,
                monitored@[b],
                reported@[b],
            ) by {
                assert(self.last_scan@[b] == Self::band_after_step(
                    before.band(b),
                    b,
                    time,
                    action,
                    monitored@[b],
                    reported@[b],
                ).last_scan);
            }
        }
    }

    /// Forgets everything seen: every band is unseen and no action was taken.
    pub fn reset(&mut self)
        requires
            old(self).wf(),
        ensures
            final(self).wf(),
            final(self).bands() == old(self).bands(),
            forall|band: int| 0 <= band < final(self).bands() ==> Self::unseen(#[trigger] final(self).band(band)),
            final(self).previous() is None,
    {
        let num_bands = self.visits.len();
        *self = Self::new(num_bands);
    }

    /// The history of one band.
    pub fn band_history(&self, band: usize) -> (history: BandHistory)
        requires
            self.wf(),
            band < self.bands(),
        ensures
            history == self.band(band as int),
    {
        BandHistory {
            last_scan: self.last_scan[band],
            last_detection: self.last_detection[band],
            observations: self.observations[band],
            detections: self.detections[band],
            visits: self.visits[band],
        }
    }

    /// The latest selected action, if any step has been recorded.
    pub fn previous_action(&self) -> (action: Option<usize>)
        ensures
            action == self.previous(),
    {
        self.previous_action
    }

    /// The number of tracked bands.
    pub fn num_bands(&self) -> (count: usize)
        ensures
            count == self.bands(),
    {
        self.visits.len()
    }
}

} // verus!
