use std::path::PathBuf;

use smartscan::data::activity::{count_compact_records, record_range, ActivityDataError};
use smartscan::data::hdf5_loader::{check_record_limit, plan_tsrd_read, TsrdLayoutError, TsrdLoadReport};
use smartscan::data::streaming::{column_index, has_csv_extension, normalize_header, DatasetInspection, ProcessedFileIndex};
use smartscan::data::windows::{generate_windows, split_ids_at};

#[test]
fn headers_are_trimmed_lowered_and_underscored() {
    assert_eq!(normalize_header("  Time Of-Arrival \t"), "time_of_arrival");
    assert_eq!(normalize_header("ToA"), "toa");
    assert_eq!(normalize_header("   "), "");
    assert_eq!(normalize_header("PW\u{3000}"), "pw");
    assert_eq!(normalize_header("a\tB"), "a\tb");
}

#[test]
fn column_lookup_follows_alias_order_and_keeps_the_last_duplicate() {
    let columns: Vec<String> = ["freq", "toa", "time", "toa"].iter().map(|c| c.to_string()).collect();
    assert_eq!(column_index(&columns, &["toa", "time_of_arrival", "time"]), Some(3));
    assert_eq!(column_index(&columns, &["time_of_arrival", "time"]), Some(2));
    assert_eq!(column_index(&columns, &["aoa", "angle_of_arrival"]), None);
}

#[test]
fn csv_extension_ignores_ascii_case() {
    assert!(has_csv_extension("csv"));
    assert!(has_csv_extension("CsV"));
    assert!(!has_csv_extension("csvx"));
    assert!(!has_csv_extension("tsv"));
}

#[test]
fn inspection_counts_files_bytes_and_csv_files() {
    let mut inspection = DatasetInspection::empty(PathBuf::from("data/raw"));
    inspection.record_file(10, Some("CSV"));
    inspection.record_file(5, Some("h5"));
    inspection.record_file(7, None);
    assert_eq!(inspection.file_count, 3);
    assert_eq!(inspection.total_bytes, 22);
    assert_eq!(inspection.csv_files, 1);
    assert_eq!(inspection.root, PathBuf::from("data/raw"));
}

#[test]
fn processed_index_describes_compact_records() {
    let index = ProcessedFileIndex::compact(PathBuf::from("a.csv"), PathBuf::from("a.ssp"), 2);
    assert_eq!(index.pulse_count, 2);
    assert_eq!(index.record_size_bytes, 40);
    assert_eq!(index.format, "smartscan-pulse-v1");
}

#[test]
fn windows_keep_future_targets_out_of_history() {
    let features: Vec<[f32; 10]> = (0..6).map(|index| [index as f32; 10]).collect();
    let windows = generate_windows(&features, 2, 2);

    assert_eq!(windows.len(), 3);
    assert_eq!(windows[0].history[0][0], 0.0);
    assert_eq!(windows[0].history[1][0], 1.0);
    assert_eq!(windows[0].target[0], 3.0);
    assert_eq!(windows[0].target_index, 3);
}

#[test]
fn too_few_features_yield_no_windows() {
    let features = [1u8, 2, 3];
    assert!(generate_windows(&features, 2, 2).is_empty());
    assert_eq!(generate_windows(&features, 3, 1).len(), 0);
    assert_eq!(generate_windows(&features, 2, 1).len(), 1);
}

#[test]
fn splits_do_not_break_scenarios_apart() {
    let ids = ["scenario-a", "scenario-b", "scenario-c", "scenario-d"]
        .into_iter()
        .map(str::to_string)
        .collect::<Vec<_>>();
    let (training, validation) = split_ids_at(&ids, 3);
    assert_eq!(training, vec!["scenario-a", "scenario-b", "scenario-c"]);
    assert_eq!(validation, vec!["scenario-d"]);
}

fn compact_file(records: usize, extra: usize) -> Vec<u8> {
    let mut bytes = b"SSP1".to_vec();
    bytes.extend(std::iter::repeat(0u8).take(records * 40 + extra));
    bytes
}

#[test]
fn compact_framing_counts_whole_records_up_to_the_limit() {
    assert!(matches!(count_compact_records(&compact_file(3, 0), 10), Ok(3)));
    assert!(matches!(count_compact_records(&compact_file(3, 0), 2), Ok(2)));
    assert!(matches!(count_compact_records(&compact_file(3, 7), 3), Ok(3)));
    assert!(matches!(count_compact_records(&compact_file(0, 0), 5), Ok(0)));
}

#[test]
fn compact_framing_rejects_bad_headers_and_partial_records() {
    assert!(matches!(count_compact_records(b"SSP", 1), Err(ActivityDataError::Io(_))));
    assert!(matches!(count_compact_records(b"SSP2", 1), Err(ActivityDataError::InvalidHeader)));
    assert!(matches!(
        count_compact_records(&compact_file(1, 7), 5),
        Err(ActivityDataError::TruncatedRecord)
    ));
    assert_eq!(record_range(2), (84, 124));
}

#[test]
fn rejects_a_zero_record_limit() {
    assert_eq!(check_record_limit(0), Err(TsrdLayoutError::ZeroLimit));
    assert_eq!(plan_tsrd_read(&[10, 5], 0), Err(TsrdLayoutError::ZeroLimit));
}

#[test]
fn tsrd_layout_is_checked_before_reading() {
    assert_eq!(plan_tsrd_read(&[10], 4), Err(TsrdLayoutError::InvalidRank));
    assert_eq!(
        plan_tsrd_read(&[10, 4], 4),
        Err(TsrdLayoutError::InvalidWidth { actual: 4, expected: 5 })
    );
    assert_eq!(
        plan_tsrd_read(&[10, 5], 4),
        Ok(TsrdLoadReport { source_rows: 10, loaded_rows: 4, feature_count: 5 })
    );
    assert_eq!(
        plan_tsrd_read(&[3, 5], 4),
        Ok(TsrdLoadReport { source_rows: 3, loaded_rows: 3, feature_count: 5 })
    );
}

#[test]
fn short_input_reports_a_short_read() {
    match count_compact_records(b"SS", 1) {
        Err(ActivityDataError::Io(error)) => {
            assert_eq!(error.kind(), std::io::ErrorKind::UnexpectedEof);
            assert_eq!(error.to_string(), "failed to fill whole buffer");
        }
        other => panic!("expected a short-read error, got {:?}", other),
    }
}
