use remove_bars::crop::{is_within_threshold, read_crop};

#[test]
fn threshold_accepts_full_frames_at_zero() {
    assert!(is_within_threshold("1920:1080:0:0", (1920, 1080), 0));
    assert!(!is_within_threshold("1920:800:0:140", (1920, 1080), 0));
    assert!(!is_within_threshold("1920:1072:0:0", (1920, 1080), 0));
}

#[test]
fn threshold_ignores_rounding_artifacts() {
    // 4px trimmed from top and bottom: a round-to-16 artifact, not real
    // letterboxing.
    assert!(is_within_threshold("1920:1072:0:4", (1920, 1080), 8));
    assert!(!is_within_threshold("1920:1072:0:4", (1920, 1080), 3));
}

#[test]
fn threshold_keeps_real_letterboxing() {
    // 20px on top and bottom (1.85:1 content in a 16:9 frame) and 140px
    // (2.35:1) must both still be cropped at the default threshold.
    assert!(!is_within_threshold("1920:1040:0:20", (1920, 1080), 8));
    assert!(!is_within_threshold("1920:800:0:140", (1920, 1080), 8));
    // Pillarboxing (4:3 content) is likewise kept.
    assert!(!is_within_threshold("1440:1080:240:0", (1920, 1080), 8));
}

#[test]
fn threshold_rejects_malformed_or_impossible_crops() {
    assert!(!is_within_threshold("1920:1080", (1920, 1080), 8));
    assert!(!is_within_threshold("", (1920, 1080), 8));
    // A crop wider than the source frame cannot be trusted.
    assert!(!is_within_threshold("1920:240:0:0", (320, 240), 8));
}

#[test]
fn numbers_are_read_as_they_are_written() {
    assert_eq!(read_crop("1920:800:0:140"), Some((1920, 800, 0, 140)));
    assert_eq!(read_crop("4294967295:0:+7:007"), Some((u32::MAX, 0, 7, 7)));
}

#[test]
fn malformed_crops_have_no_numbers() {
    for crop in [
        "",
        ":::",
        "1920:1080:0",
        "1920:1080:0:0:0",
        "1920:1080:0:0:",
        ":1920:1080:0:0",
        "1920:x:1080:0:0",
        "1920:x:0:0",
        "1920::0:0",
        "1920:-1080:0:0",
        "1920:1080:0: 0",
        "1920:1080:0:+",
        "4294967296:1080:0:0",
        "\u{661}:1080:0:0",
    ] {
        assert_eq!(read_crop(crop), None);
        assert!(!is_within_threshold(crop, (1920, 1080), u32::MAX));
    }
    assert!(!is_within_threshold("1920:x:1080:0:0", (1920, 1080), 8));
}

#[test]
fn threshold_is_measured_at_every_edge() {
    for crop in ["90:100:10:0", "90:100:0:0", "100:90:0:10", "100:90:0:0"] {
        assert!(is_within_threshold(crop, (100, 100), 10));
        assert!(!is_within_threshold(crop, (100, 100), 9));
        assert!(is_within_threshold(crop, (100, 100), 11));
    }
}

#[test]
fn crops_that_reach_beyond_the_frame_trim_nothing_there() {
    assert!(is_within_threshold("100:100:5:5", (100, 100), 5));
    assert!(!is_within_threshold("100:100:6:5", (100, 100), 5));
    assert!(!is_within_threshold("101:100:0:0", (100, 100), 100));
    assert!(!is_within_threshold("100:101:0:0", (100, 100), 100));
}

#[test]
fn offsets_near_the_limit_are_judged_exactly() {
    assert!(!is_within_threshold("10:10:4294967295:0", (10, 10), 8));
    assert!(is_within_threshold("10:10:4294967295:0", (10, 10), u32::MAX));
}
