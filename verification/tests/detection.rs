use remove_bars::capture::{FfmpegDiagnostics, LogLevel};
use remove_bars::detect::{
    detect_arguments, is_negligible, CropDetection, CropDetector, ProbeEvent, CROP_DETECT_FILTER,
    LOG_TAIL_LINES,
};

fn log(level: LogLevel, line: &str) -> ProbeEvent {
    ProbeEvent::Log { level, line: line.to_string() }
}

fn detection(crop: Option<&str>, source_size: Option<(u32, u32)>, failed: bool) -> CropDetection {
    CropDetection {
        crop: crop.map(str::to_string),
        source_size,
        failed,
        diagnostics: FfmpegDiagnostics { errors: vec![], tail: vec![] },
    }
}

#[test]
fn arguments_seek_before_the_input_and_limit_after_it() {
    let arguments = detect_arguments(30, 60);
    assert_eq!(arguments.before_input, vec!["-ss", "30"]);
    assert_eq!(arguments.after_input, vec!["-t", "60", "-vf", CROP_DETECT_FILTER, "-f", "null"]);
    assert_eq!(CROP_DETECT_FILTER, "cropdetect=24:16:0");
}

#[test]
fn detector_selects_the_value_reported_most_often() {
    let mut detector = CropDetector::new();
    assert!(detector.observe(&log(LogLevel::Info, "x crop=1920:1080:0:0")));
    assert!(detector.observe(&log(LogLevel::Info, "x crop=1920:800:0:140")));
    assert!(detector.observe(&ProbeEvent::Other));
    assert!(detector.observe(&log(LogLevel::Info, "x crop=1920:800:0:140")));

    let detection = detector.finish(true);

    assert_eq!(detection.crop, Some("1920:800:0:140".to_string()));
    assert_eq!(detection.source_size, None);
    assert!(!detection.failed);
    assert_eq!(detection.diagnostics.tail.len(), 3);
    assert!(detection.diagnostics.errors.is_empty());
}

#[test]
fn detector_keeps_the_first_of_the_largest_frames() {
    let mut detector = CropDetector::new();
    for (width, height) in [(320, 240), (1920, 1080), (1080, 1920), (640, 480)] {
        assert!(detector.observe(&ProbeEvent::VideoStream { width, height }));
    }
    assert_eq!(detector.finish(true).source_size, Some((1920, 1080)));

    let mut detector = CropDetector::new();
    assert!(detector.observe(&ProbeEvent::VideoStream { width: 65536, height: 65536 }));
    assert!(detector.observe(&ProbeEvent::VideoStream { width: 10, height: 10 }));
    assert_eq!(detector.finish(true).source_size, Some((65536, 65536)));
}

#[test]
fn detector_keeps_the_last_lines_and_all_errors() {
    let mut detector = CropDetector::new();
    assert!(detector.observe(&log(LogLevel::Fatal, "broken")));
    for i in 0..12 {
        assert!(detector.observe(&log(LogLevel::Info, &format!("line {i}"))));
    }

    let detection = detector.finish(false);

    assert!(detection.failed);
    assert!(detection.is_failure());
    assert_eq!(detection.diagnostics.errors, vec!["broken"]);
    assert_eq!(detection.diagnostics.tail.len(), LOG_TAIL_LINES);
    assert_eq!(detection.diagnostics.tail[0], "line 2");
    assert_eq!(detection.diagnostics.tail[9], "line 11");
}

#[test]
fn failed_run_with_a_result_is_no_failure() {
    assert!(!detection(Some("1920:800:0:140"), None, true).is_failure());
    assert!(!detection(None, None, false).is_failure());
    assert!(detection(None, Some((1920, 1080)), true).is_failure());
}

#[test]
fn negligible_crops_are_not_applied() {
    let size = Some((1920, 1080));
    let slight = detection(Some("1920:1072:0:4"), size, false);
    assert_eq!(slight.crop_beyond(8), None);
    assert_eq!(slight.crop_beyond(3), Some("1920:1072:0:4".to_string()));
    assert_eq!(
        detection(Some("1920:800:0:140"), size, false).crop_beyond(8),
        Some("1920:800:0:140".to_string())
    );
    assert_eq!(detection(None, size, false).crop_beyond(8), None);
}

#[test]
fn no_crop_is_negligible_in_a_frame_of_unknown_size() {
    let crop = Some("1920:1080:0:0".to_string());
    assert!(!is_negligible(&crop, None, 8));
    assert!(is_negligible(&crop, Some((1920, 1080)), 0));
    assert!(!is_negligible(&None, Some((1920, 1080)), 8));
    assert_eq!(detection(Some("1920:1080:0:0"), None, false).crop_beyond(8), crop);
}
