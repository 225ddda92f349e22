//! Chronological temporal windows and whole-scenario splits.
use vstd::prelude::*;

verus! {

/// A history of consecutive items and the later item it is to predict.
#[derive(Debug, Clone, PartialEq)]
pub struct TemporalWindow<T> {
    pub history: Vec<T>,
    pub target: T,
    pub target_index: usize,
}

/// The number of windows over `len` items with `sequence_length` history
/// items and a target `prediction_horizon` positions after the last of them.
pub open spec fn window_count(len: nat, sequence_length: nat, prediction_horizon: nat) -> nat {
    let target_offset = sequence_length + prediction_horizon - 1;
    if len <= target_offset {
        0
    } else {
        (len - target_offset) as nat
    }
}

/// Builds every chronological window: window `start` holds items
/// `start .. start + sequence_length` as history and item
/// `start + sequence_length + prediction_horizon - 1` as target.
pub fn generate_windows<T: Copy>(
    features: &[T],
    sequence_length: usize,
    prediction_horizon: usize,
) -> (windows: Vec<TemporalWindow<T>>)
    requires
        sequence_length > 0,
        prediction_horizon > 0,
        sequence_length + prediction_horizon <= usize::MAX,
    ensures
        windows@.len() == window_count(
            features@.len(),
            sequence_length as nat,
            prediction_horizon as nat,
        ),
        forall|start: int|
            0 <= start < windows@.len() ==> {
                &&& #[trigger] windows@[start].target_index == start + sequence_length
                    + prediction_horizon - 1
                &&& windows@[start].target == features@[windows@[start].target_index as int]
                &&& windows@[start].history@ == features@.subrange(
                    start,
                    start + sequence_length,
                )
            },
{
    let target_offset = sequence_length + prediction_horizon - 1;
    let mut windows: Vec<TemporalWindow<T>> = Vec::new();
    if features.len() <= target_offset {
        return windows;
    }
    let len = features.len();
    let count = len - target_offset;
    let mut start: usize = 0;
    while start < count
        invariant
            start <= count,
            count + target_offset == len,
            len == features@.len(),
            target_offset == sequence_length + prediction_horizon - 1,
            sequence_length > 0,
            prediction_horizon > 0,
            windows@.len() == start,
            forall|s: int|
                0 <= s < start ==> {
                    &&& #[trigger] windows@[s].target_index == s + target_offset
                    &&& windows@[s].target == features@[s + target_offset]
                    &&& windows@[s].history@ == features@.subrange(s, s + sequence_length)
                },
        decreases count - start,
    {
        let mut history: Vec<T> = Vec::new();
        let mut i: usize = 0;
        while i < sequence_length
            invariant
                i <= sequence_length,
                start < count,
                count + target_offset == len,
                len == features@.len(),
                target_offset == sequence_length + prediction_horizon - 1,
                prediction_horizon > 0,
                history@ == features@.subrange(start as int, start + i),
            decreases sequence_length - i,
        {
            history.push(features[start + i]);
            proof {
                assert(features@.subrange(start as int, start + i + 1) =~= features@.subrange(
                    start as int,
                    start + i,
                ).push(features@[start + i]));
            }
            i = i + 1;
        }
        let target_index = start + target_offset;
        windows.push(TemporalWindow { history, target: features[target_index], target_index });
        start = start + 1;
    }
    windows
}

/// No window's history reaches its target: the target lies
/// `prediction_horizon` positions after the last history item.
pub proof fn lemma_target_after_history(
    start: int,
    sequence_length: int,
    prediction_horizon: int,
    history_index: int,
)
    requires
        sequence_length > 0,
        prediction_horizon > 0,
        start <= history_index < start + sequence_length,
    ensures
        history_index + prediction_horizon <= start + sequence_length + prediction_horizon - 1,
        history_index < start + sequence_length + prediction_horizon - 1,
{
}

/// Splits scenario ids at `validation_start`: the ids before it train, the
/// rest validate. Whole scenarios are assigned, never parts of one.
pub fn split_ids_at(scenario_ids: &[String], validation_start: usize) -> (split: (
    Vec<String>,
    Vec<String>,
))
    requires
        validation_start <= scenario_ids@.len(),
    ensures
        split.0@ == scenario_ids@.subrange(0, validation_start as int),
        split.1@ == scenario_ids@.subrange(validation_start as int, scenario_ids@.len() as int),
{
    let mut training: Vec<String> = Vec::new();
    let mut validation: Vec<String> = Vec::new();
    let mut i: usize = 0;
    while i < scenario_ids.len()
        invariant
            i <= scenario_ids@.len(),
            validation_start <= scenario_ids@.len(),
            training@ == scenario_ids@.subrange(0, if i < validation_start {
                i as int
            } else {
                validation_start as int
            }),
            validation@ == scenario_ids@.subrange(validation_start as int, if i
                < validation_start {
                validation_start as int
            } else {
                i as int
            }),
        decreases scenario_ids@.len() - i,
    {
        let id = scenario_ids[i].clone();
        if i < validation_start {
            training.push(id);
            proof {
                assert(scenario_ids@.subrange(0, i + 1) =~= scenario_ids@.subrange(
                    0,
                    i as int,
                ).push(scenario_ids@[i as int]));
            }
        } else {
            validation.push(id);
            proof {
                assert(scenario_ids@.subrange(validation_start as int, i + 1)
                    =~= scenario_ids@.subrange(validation_start as int, i as int).push(
                    scenario_ids@[i as int],
                ));
            }
        }
        i = i + 1;
    }
    (training, validation)
}

/// The training ids followed by the validation ids are exactly the scenario
/// ids, in order: the split loses, duplicates and reorders none.
pub proof fn lemma_split_partitions(scenario_ids: Seq<String>, validation_start: int)
    requires
        0 <= validation_start <= scenario_ids.len(),
    ensures
        scenario_ids.subrange(0, validation_start) + scenario_ids.subrange(
            validation_start,
            scenario_ids.len() as int,
        ) == scenario_ids,
{
    assert(scenario_ids.subrange(0, validation_start) + scenario_ids.subrange(
        validation_start,
        scenario_ids.len() as int,
    ) =~= scenario_ids);
}

} // verus!
