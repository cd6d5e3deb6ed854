use remove_bars::counter::{crop_value, select_crop, CropCounter};

#[test]
fn crop_counter_counts_values_across_lines() {
    let mut counter = CropCounter::new();
    counter.push("[Parsed_cropdetect_0 @ 0x0] x1:0 x2:1919 y1:138 y2:941 crop=1920:800:0:140");
    counter.push("[Parsed_cropdetect_0 @ 0x0] crop=1920:800:0:140");
    counter.push("[Parsed_cropdetect_0 @ 0x0] crop=1920:1080:0:0");

    let values = counter.finish();

    assert_eq!(
        values,
        vec![
            ("1920:800:0:140".to_string(), 2),
            ("1920:1080:0:0".to_string(), 1),
        ]
    );
}

#[test]
fn crop_counter_ignores_lines_without_crop_values() {
    let mut counter = CropCounter::new();
    counter.push("frame= 1438 fps=0.0 q=-0.0 Lsize=N/A");
    counter.push("[out#0/null] video:595KiB audio:45000KiB");
    counter.push("At least one output file must be specified");

    assert!(counter.finish().is_empty());
}

#[test]
fn select_crop_prefers_most_frequent_value() {
    let values = vec![
        ("1920:800:0:140".to_string(), 1),
        ("1920:1080:0:0".to_string(), 25),
    ];

    assert_eq!(select_crop(&values), Some("1920:1080:0:0".to_string()));
}

#[test]
fn select_crop_breaks_ties_by_first_seen() {
    let values = vec![
        ("1920:800:0:140".to_string(), 3),
        ("1920:1080:0:0".to_string(), 3),
    ];

    assert_eq!(select_crop(&values), Some("1920:800:0:140".to_string()));
}

#[test]
fn select_crop_returns_none_when_no_values() {
    assert_eq!(select_crop(&[]), None);
}

#[test]
fn crop_value_takes_the_leftmost_value() {
    assert_eq!(
        crop_value("crop=1:2:3:4 crop=5:6:7:8"),
        Some("1:2:3:4".to_string())
    );
    assert_eq!(
        crop_value("crop=1:2:3 crop=5:6:7:8"),
        Some("5:6:7:8".to_string())
    );
    assert_eq!(crop_value("crop=crop=1:22:333:4444"), Some("1:22:333:4444".to_string()));
}

#[test]
fn crop_value_stops_after_the_fourth_number() {
    assert_eq!(crop_value("crop=1920:800:0:140:9"), Some("1920:800:0:140".to_string()));
    assert_eq!(crop_value("crop=1920:800:0:140x"), Some("1920:800:0:140".to_string()));
}

#[test]
fn crop_value_needs_four_numbers() {
    assert_eq!(crop_value(""), None);
    assert_eq!(crop_value("crop="), None);
    assert_eq!(crop_value("crop=1920:800:0"), None);
    assert_eq!(crop_value("crop=1920:-800:0:140"), None);
    assert_eq!(crop_value("1920:800:0:140"), None);
    assert_eq!(crop_value("Crop=1920:800:0:140"), None);
}

#[test]
fn crop_value_reads_lines_with_other_scripts() {
    assert_eq!(
        crop_value("Größe \u{2026} crop=1920:800:0:140"),
        Some("1920:800:0:140".to_string())
    );
    assert_eq!(
        crop_value("crop=\u{661}:\u{662}:\u{663}:\u{664}"),
        Some("\u{661}:\u{662}:\u{663}:\u{664}".to_string())
    );
}

#[test]
fn values_are_counted_in_first_seen_order() {
    let mut counter = CropCounter::new();
    counter.count(Some("b".to_string()));
    counter.count(Some("a".to_string()));
    counter.count(None);
    counter.count(Some("a".to_string()));
    counter.count(Some("b".to_string()));

    let values = counter.finish();

    assert_eq!(values, vec![("b".to_string(), 2), ("a".to_string(), 2)]);
    assert_eq!(select_crop(&values), Some("b".to_string()));
}

#[test]
fn most_reported_value_is_selected() {
    let mut counter = CropCounter::new();
    for line in ["crop=1:1:1:1", "crop=2:2:2:2", "noise", "crop=2:2:2:2", "crop=3:3:3:3"] {
        counter.push(line);
    }

    assert_eq!(select_crop(&counter.finish()), Some("2:2:2:2".to_string()));
}

#[test]
fn try_push_counts_while_there_is_room() {
    let mut counter = CropCounter::new();
    assert!(counter.try_push("crop=1:2:3:4"));
    assert!(counter.try_push("nothing here"));
    assert!(counter.try_push("crop=1:2:3:4"));
    assert_eq!(counter.finish(), vec![("1:2:3:4".to_string(), 2)]);
}

#[test]
fn later_maximum_replaces_an_earlier_value() {
    let values = vec![("a".to_string(), 1), ("b".to_string(), 4), ("c".to_string(), 4)];
    assert_eq!(select_crop(&values), Some("b".to_string()));
}
