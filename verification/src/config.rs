//! The parts of the application configuration that hold no floating point.
use vstd::prelude::*;

verus! {

/// Application identity and directory layout.
#[derive(Debug, Clone)]
pub struct AppConfig {
    pub name: String,
    pub version: String,
    pub log_level: String,
    pub data_dir: String,
    pub models_dir: String,
    pub results_dir: String,
}

/// Settings of model evaluation.
#[derive(Debug, Clone)]
pub struct EvaluationConfig {
    pub num_test_episodes: usize,
    pub metrics_output: String,
}

impl Default for AppConfig {
    fn default() -> (config: Self)
        ensures
            config.name@ == "SMARTSCAN"@,
            config.version@ == "0.1.0"@,
            config.log_level@ == "info"@,
            config.data_dir@ == "data"@,
            config.models_dir@ == "models"@,
            config.results_dir@ == "results"@,
    {
        AppConfig {
            name: String::from_str("SMARTSCAN"),
            version: String::from_str("0.1.0"),
            log_level: String::from_str("info"),
            data_dir: String::from_str("data"),
            models_dir: String::from_str("models"),
            results_dir: String::from_str("results"),
        }
    }
}

impl Default for EvaluationConfig {
    fn default() -> (config: Self)
        ensures
            config.num_test_episodes == 100,
            config.metrics_output@ == "results/metrics"@,
    {
        EvaluationConfig {
            num_test_episodes: 100,
            metrics_output: String::from_str("results/metrics"),
        }
    }
}

/// A configuration rule that a value breaks.
#[derive(Debug, Clone, Copy, PartialEq, Eq, Structural)]
pub enum ConfigIssue {
    NumBands,
    TimeHorizon,
    ReceiverBandwidthFraction,
    DetectionProbability,
    FalseAlarmProbability,
    BatchSize,
    LearningRate,
    Epochs,
    ValidationSplit,
}

/// What the validation rules read of a configuration. Each fraction or
/// probability is represented by whether it lies in the closed unit interval,
/// and the learning rate by whether it is positive.
#[derive(Debug, Clone, Copy)]
pub struct ConfigSnapshot {
    pub num_bands: usize,
    pub time_horizon: usize,
    pub receiver_bandwidth_fraction_in_range: bool,
    pub detection_probability_in_range: bool,
    pub false_alarm_probability_in_range: bool,
    pub batch_size: usize,
    pub learning_rate_positive: bool,
    pub epochs: usize,
    pub validation_split_in_range: bool,
}

/// The first rule, in the order the rules are checked, that `c` breaks.
pub open spec fn first_issue(c: ConfigSnapshot) -> Option<ConfigIssue> {
    if c.num_bands < 1 {
        Some(ConfigIssue::NumBands)
    } else if c.time_horizon < 1 {
        Some(ConfigIssue::TimeHorizon)
    } else if !c.receiver_bandwidth_fraction_in_range {
        Some(ConfigIssue::ReceiverBandwidthFraction)
    } else if !c.detection_probability_in_range {
        Some(ConfigIssue::DetectionProbability)
    } else if !c.false_alarm_probability_in_range {
        Some(ConfigIssue::FalseAlarmProbability)
    } else if c.batch_size < 1 {
        Some(ConfigIssue::BatchSize)
    } else if !c.learning_rate_positive {
        Some(ConfigIssue::LearningRate)
    } else if c.epochs < 1 {
        Some(ConfigIssue::Epochs)
    } else if !c.validation_split_in_range {
        Some(ConfigIssue::ValidationSplit)
    } else {
        None
    }
}

impl ConfigIssue {
    /// The message reported for this rule.
    pub open spec fn text(self) -> Seq<char> {
        match self {
            ConfigIssue::NumBands => "num_bands must be >= 1"@,
            ConfigIssue::TimeHorizon => "time_horizon must be >= 1"@,
            ConfigIssue::ReceiverBandwidthFraction => "receiver_bandwidth_fraction must be in [0, 1]"@,
            ConfigIssue::DetectionProbability => "detection_probability must be in [0, 1]"@,
            ConfigIssue::FalseAlarmProbability => "false_alarm_probability must be in [0, 1]"@,
            ConfigIssue::BatchSize => "batch_size must be >= 1"@,
            ConfigIssue::LearningRate => "learning_rate must be > 0"@,
            ConfigIssue::Epochs => "epochs must be >= 1"@,
            ConfigIssue::ValidationSplit => "validation_split must be in [0, 1]"@,
        }
    }

    pub fn message(&self) -> (text: String)
        ensures
            text@ == self.text(),
    {
        match self {
            ConfigIssue::NumBands => String::from_str("num_bands must be >= 1"),
            ConfigIssue::TimeHorizon => String::from_str("time_horizon must be >= 1"),
            ConfigIssue::ReceiverBandwidthFraction => String::from_str(
                "receiver_bandwidth_fraction must be in [0, 1]",
            ),
            ConfigIssue::DetectionProbability => String::from_str(
                "detection_probability must be in [0, 1]",
            ),
            ConfigIssue::FalseAlarmProbability => String::from_str(
                "false_alarm_probability must be in [0, 1]",
            ),
            ConfigIssue::BatchSize => String::from_str("batch_size must be >= 1"),
            ConfigIssue::LearningRate => String::from_str("learning_rate must be > 0"),
            ConfigIssue::Epochs => String::from_str("epochs must be >= 1"),
            ConfigIssue::ValidationSplit => String::from_str("validation_split must be in [0, 1]"),
        }
    }
}

/// Every rule holds: each count is at least one, each fraction and
/// probability lies in the unit interval and the learning rate is positive.
pub open spec fn all_rules_hold(c: ConfigSnapshot) -> bool {
    &&& c.num_bands >= 1
    &&& c.time_horizon >= 1
    &&& c.receiver_bandwidth_fraction_in_range
    &&& c.detection_probability_in_range
    &&& c.false_alarm_probability_in_range
    &&& c.batch_size >= 1
    &&& c.learning_rate_positive
    &&& c.epochs >= 1
    &&& c.validation_split_in_range
}

/// `c` breaks the rule that `issue` reports.
pub open spec fn breaks(c: ConfigSnapshot, issue: ConfigIssue) -> bool {
    match issue {
        ConfigIssue::NumBands => c.num_bands == 0,
        ConfigIssue::TimeHorizon => c.time_horizon == 0,
        ConfigIssue::ReceiverBandwidthFraction => !c.receiver_bandwidth_fraction_in_range,
        ConfigIssue::DetectionProbability => !c.detection_probability_in_range,
        ConfigIssue::FalseAlarmProbability => !c.false_alarm_probability_in_range,
        ConfigIssue::BatchSize => c.batch_size == 0,
        ConfigIssue::LearningRate => !c.learning_rate_positive,
        ConfigIssue::Epochs => c.epochs == 0,
        ConfigIssue::ValidationSplit => !c.validation_split_in_range,
    }
}

/// A configuration is accepted exactly when every rule holds, and a refusal
/// always names a rule that the configuration really breaks.
pub proof fn lemma_issue_iff_rule_broken(c: ConfigSnapshot)
    ensures
        first_issue(c) is None <==> all_rules_hold(c),
        first_issue(c) matches Some(issue) ==> breaks(c, issue),
{
}

/// Checks the configuration rules in order and reports the first one broken,
/// or `Ok` when every rule holds.
pub fn validate_config(c: &ConfigSnapshot) -> (result: Result<(), ConfigIssue>)
    ensures
        match first_issue(*c) {
            Some(issue) => result == Err::<(), ConfigIssue>(issue),
            None => result is Ok,
        },
        result is Ok <==> all_rules_hold(*c),
        result matches Err(issue) ==> breaks(*c, issue),
{
    if c.num_bands < 1 {
        return Err(ConfigIssue::NumBands);
    }
    if c.time_horizon < 1 {
        return Err(ConfigIssue::TimeHorizon);
    }
    if !c.receiver_bandwidth_fraction_in_range {
        return Err(ConfigIssue::ReceiverBandwidthFraction);
    }
    if !c.detection_probability_in_range {
        return Err(ConfigIssue::DetectionProbability);
    }
    if !c.false_alarm_probability_in_range {
        return Err(ConfigIssue::FalseAlarmProbability);
    }
    if c.batch_size < 1 {
        return Err(ConfigIssue::BatchSize);
    }
    if !c.learning_rate_positive {
        return Err(ConfigIssue::LearningRate);
    }
    if c.epochs < 1 {
        return Err(ConfigIssue::Epochs);
    }
    if !c.validation_split_in_range {
        return Err(ConfigIssue::ValidationSplit);
    }
    Ok(())
}

} // verus!
