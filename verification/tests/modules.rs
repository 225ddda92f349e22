use smartscan::config::{validate_config, ConfigIssue, ConfigSnapshot};
use smartscan::data::DataLoader;
use smartscan::dl::DlModel;
use smartscan::ppo::PpoScheduler;
use smartscan::{version, AppConfig, EvaluationConfig, Version, PROJECT_NAME};

#[test]
fn test_data_loader_creation() {
    let _loader = DataLoader::new();
}

#[test]
fn test_dl_model_creation() {
    let _model = DlModel::new();
}

#[test]
fn test_ppo_scheduler_creation() {
    let _scheduler = PpoScheduler::new();
}

#[test]
fn version_text_is_dotted_decimal() {
    assert_eq!(version().to_string(), "0.1.0");
    assert_eq!(Version::new(12, 0, 255).to_string(), "12.0.255");
    assert_eq!(Version::new(100, 9, 10).to_string(), "100.9.10");
    assert_eq!(PROJECT_NAME, "SMARTSCAN");
}

#[test]
fn default_configuration_sections() {
    let app = AppConfig::default();
    assert_eq!(app.name, "SMARTSCAN");
    assert_eq!(app.log_level, "info");
    assert_eq!(app.results_dir, "results");
    let evaluation = EvaluationConfig::default();
    assert_eq!(evaluation.num_test_episodes, 100);
    assert_eq!(evaluation.metrics_output, "results/metrics");
}

fn default_snapshot() -> ConfigSnapshot {
    ConfigSnapshot {
        num_bands: 32,
        time_horizon: 1000,
        receiver_bandwidth_fraction_in_range: true,
        detection_probability_in_range: true,
        false_alarm_probability_in_range: true,
        batch_size: 32,
        learning_rate_positive: true,
        epochs: 100,
        validation_split_in_range: true,
    }
}

#[test]
fn default_configuration_values_pass_validation() {
    assert!(validate_config(&default_snapshot()).is_ok());
}

#[test]
fn validation_reports_the_first_broken_rule() {
    let mut snapshot = default_snapshot();
    snapshot.num_bands = 0;
    assert_eq!(validate_config(&snapshot), Err(ConfigIssue::NumBands));

    snapshot.num_bands = 32;
    snapshot.detection_probability_in_range = false;
    assert_eq!(validate_config(&snapshot), Err(ConfigIssue::DetectionProbability));

    snapshot.epochs = 0;
    snapshot.validation_split_in_range = false;
    assert_eq!(validate_config(&snapshot), Err(ConfigIssue::DetectionProbability));

    snapshot.detection_probability_in_range = true;
    assert_eq!(validate_config(&snapshot), Err(ConfigIssue::Epochs));
    assert_eq!(ConfigIssue::Epochs.message(), "epochs must be >= 1");

    snapshot.epochs = 1;
    assert_eq!(validate_config(&snapshot), Err(ConfigIssue::ValidationSplit));
    assert_eq!(
        ConfigIssue::ValidationSplit.message(),
        "validation_split must be in [0, 1]"
    );
}

#[test]
fn each_rule_has_its_own_error() {
    let mut snapshot = default_snapshot();
    snapshot.time_horizon = 0;
    assert_eq!(validate_config(&snapshot), Err(ConfigIssue::TimeHorizon));
    snapshot.time_horizon = 1;
    snapshot.false_alarm_probability_in_range = false;
    assert_eq!(validate_config(&snapshot), Err(ConfigIssue::FalseAlarmProbability));
    snapshot.false_alarm_probability_in_range = true;
    snapshot.batch_size = 0;
    assert_eq!(validate_config(&snapshot), Err(ConfigIssue::BatchSize));
    assert_eq!(ConfigIssue::BatchSize.message(), "batch_size must be >= 1");
}

#[test]
fn learning_rate_and_bandwidth_fraction_are_checked() {
    let mut snapshot = default_snapshot();
    snapshot.learning_rate_positive = false;
    assert_eq!(validate_config(&snapshot), Err(ConfigIssue::LearningRate));
    assert_eq!(ConfigIssue::LearningRate.message(), "learning_rate must be > 0");
    snapshot.receiver_bandwidth_fraction_in_range = false;
    assert_eq!(validate_config(&snapshot), Err(ConfigIssue::ReceiverBandwidthFraction));
    assert_eq!(
        ConfigIssue::ReceiverBandwidthFraction.message(),
        "receiver_bandwidth_fraction must be in [0, 1]"
    );
}
