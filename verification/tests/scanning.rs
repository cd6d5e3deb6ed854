use remove_bars::capture::FfmpegDiagnostics;
use remove_bars::detect::CropDetection;
use remove_bars::process::Tone;
use remove_bars::scan::{
    failure_report, position_label, relative_path, scan_batches, settings_line, ScanRow,
    ScanStatus, ScanTally,
};

fn row(crop: Option<&str>, size: Option<(u32, u32)>, failed: bool) -> ScanRow {
    let detection = CropDetection {
        crop: crop.map(str::to_string),
        source_size: size,
        failed,
        diagnostics: FfmpegDiagnostics { errors: vec![], tail: vec![] },
    };
    ScanRow::from_detection("sub/a.mkv".to_string(), &detection, 8)
}

#[test]
fn video_with_bars_needs_cropping() {
    let row = row(Some("1920:800:0:140"), Some((1920, 1080)), false);
    assert_eq!(row.path, "sub/a.mkv");
    assert_eq!(row.crop, Some("1920:800:0:140".to_string()));
    assert_eq!((row.width, row.height), (Some(1920), Some(1080)));
    assert!(row.needs_crop);
    assert_eq!(row.needs_crop_flag(), 1);
    assert_eq!(row.status.as_str(), "scanned");
    assert_eq!(
        row.report(),
        (Tone::Green, "Needs cropping: crop=1920:800:0:140".to_string())
    );
}

#[test]
fn negligible_crop_is_recorded_but_not_needed() {
    let row = row(Some("1920:1072:0:4"), Some((1920, 1080)), false);
    assert_eq!(row.crop, Some("1920:1072:0:4".to_string()));
    assert!(!row.needs_crop);
    assert_eq!(row.needs_crop_flag(), 0);
    assert_eq!(row.status, ScanStatus::Scanned);
    assert_eq!(row.report(), (Tone::Yellow, "No black bars detected".to_string()));
}

#[test]
fn video_without_a_crop_needs_none() {
    let row = row(None, Some((640, 480)), false);
    assert_eq!(row.crop, None);
    assert_eq!((row.width, row.height), (Some(640), Some(480)));
    assert!(!row.needs_crop);
    assert_eq!(row.status, ScanStatus::Scanned);
    assert_eq!(row.report(), (Tone::Yellow, "No black bars detected".to_string()));
}

#[test]
fn crop_in_a_frame_of_unknown_size_is_needed() {
    let row = row(Some("1920:1080:0:0"), None, true);
    assert!(row.needs_crop);
    assert_eq!((row.width, row.height), (None, None));
    assert_eq!(row.status, ScanStatus::Scanned);
}

#[test]
fn failed_detection_is_an_error() {
    for row in [row(None, Some((1920, 1080)), true), ScanRow::error("sub/a.mkv".to_string())] {
        assert_eq!(row.path, "sub/a.mkv");
        assert_eq!(row.crop, None);
        assert_eq!((row.width, row.height), (None, None));
        assert!(!row.needs_crop);
        assert_eq!(row.status.as_str(), "error");
    }
}

#[test]
fn results_are_counted_by_kind() {
    let mut tally = ScanTally::new();
    tally.record(&row(Some("1920:800:0:140"), Some((1920, 1080)), false));
    tally.record(&ScanRow::error("b".to_string()));
    let rest = vec![
        row(None, None, false),
        row(Some("1920:1080:0:0"), Some((1920, 1080)), false),
        row(None, None, true),
        row(Some("100:100:50:50"), Some((1920, 1080)), false),
        row(None, Some((1, 1)), false),
    ];
    assert!(tally.has_room_for(rest.len()));
    tally.record_batch(&rest);
    assert_eq!(tally, ScanTally { needs_crop: 2, no_crop: 3, errors: 2 });
    assert_eq!(
        tally.summary_lines(7),
        vec![
            "Need cropping: 2",
            "No crop:       3",
            "Errors:        2",
            "Total:         7",
        ]
    );
}

#[test]
fn full_tally_has_no_room() {
    let tally = ScanTally { needs_crop: usize::MAX, no_crop: 0, errors: 0 };
    assert!(tally.has_room_for(0));
    assert!(!tally.has_room_for(1));
    let tally = ScanTally { needs_crop: usize::MAX, no_crop: 1, errors: 0 };
    assert!(!tally.has_room_for(0));
}

#[test]
fn files_are_scanned_in_batches_of_a_hundred() {
    assert_eq!(scan_batches(0), vec![]);
    assert_eq!(scan_batches(1), vec![(0, 1)]);
    assert_eq!(scan_batches(100), vec![(0, 100)]);
    assert_eq!(scan_batches(101), vec![(0, 100), (100, 101)]);
    assert_eq!(scan_batches(250), vec![(0, 100), (100, 200), (200, 250)]);
}

#[test]
fn settings_name_the_analyzed_window() {
    assert_eq!(
        settings_line(4, 30, 60, 8),
        "Parallel: 4 | Window: 30s..90s | Threshold: 8px"
    );
    assert_eq!(
        settings_line(1, u64::MAX, 1, 0),
        "Parallel: 1 | Window: 18446744073709551615s..18446744073709551616s | Threshold: 0px"
    );
}

#[test]
fn files_are_labelled_by_their_position() {
    assert_eq!(position_label(3, 12, "a.mkv"), "[3/12] a.mkv: ");
}

#[test]
fn failure_report_lists_the_errors() {
    let diagnostics = FfmpegDiagnostics {
        errors: vec!["one".to_string(), "two".to_string()],
        tail: vec!["three".to_string()],
    };
    assert_eq!(
        failure_report(&diagnostics),
        "FFmpeg returned an error during crop detection\n  one\n  two"
    );
}

#[test]
fn paths_are_recorded_with_forward_slashes() {
    assert_eq!(relative_path(Some("a\\b\\c.mkv"), "c.mkv", '\\'), "a/b/c.mkv");
    assert_eq!(relative_path(Some("a/c.mkv"), "c.mkv", '/'), "a/c.mkv");
    assert_eq!(relative_path(None, "a\\c.mkv", '\\'), "a\\c.mkv");
}

#[test]
fn backslashes_in_names_are_kept_where_slashes_separate() {
    assert_eq!(relative_path(Some("a\\b.mkv"), "a\\b.mkv", '/'), "a\\b.mkv");
    assert_eq!(relative_path(Some("s/a\\b.mkv"), "a\\b.mkv", '/'), "s/a\\b.mkv");
}

#[test]
fn batches_give_every_file_its_row() {
    let paths: Vec<String> = (0..203).map(|i| format!("{i}.mkv")).collect();
    let mut recorded = vec![];
    let mut tally = ScanTally::new();
    for (start, end) in scan_batches(paths.len()) {
        let rows: Vec<ScanRow> = paths[start..end]
            .iter()
            .map(|path| ScanRow::error(path.clone()))
            .collect();
        tally.record_batch(&rows);
        recorded.extend(rows.into_iter().map(|row| row.path));
    }
    assert_eq!(recorded, paths);
    assert_eq!(tally, ScanTally { needs_crop: 0, no_crop: 0, errors: 203 });
}
