use std::time::Duration;

use remove_bars::progress::{
    encode_message, encode_stats, eta_string, fit_progress_label, progress_label, scan_stats,
};

/// The remaining time, estimated linearly from the elapsed time and the progress so far.
fn eta_after(elapsed: Duration, position: u64, total: u64) -> String {
    let per_unit = elapsed.as_secs_f64() / position as f64;
    let remaining = per_unit * total.saturating_sub(position) as f64;
    eta_string(remaining.round() as u64, position, total)
}

#[test]
fn progress_label_spans_the_terminal_width() {
    let line = progress_label("Scanning a.mkv", "  0% 0/2 eta 00:00:10");
    assert_eq!(console::measure_text_width(&line), 80);
    assert!(line.starts_with("Scanning a.mkv"));
    assert!(line.ends_with("  0% 0/2 eta 00:00:10"));
}

#[test]
fn progress_label_truncates_long_labels() {
    let label = format!("Scanning {}", "x".repeat(200));
    let stats = "100% 1/1 eta 00:00:00";
    let line = progress_label(&label, stats);
    assert_eq!(console::measure_text_width(&line), 80);
    assert!(line.contains('…'), "long label should end with an ellipsis");
    assert!(line.ends_with(stats));
}

#[test]
fn eta_string_estimates_linearly_from_rate() {
    assert_eq!(eta_after(Duration::from_secs(10), 10, 100), "00:01:30");
    assert_eq!(eta_after(Duration::from_secs(0), 10, 100), "00:00:00");
    assert_eq!(eta_after(Duration::from_secs(5), 100, 100), "00:00:00");
    assert_eq!(eta_after(Duration::from_secs(5), 0, 100), "--:--");
    assert_eq!(eta_after(Duration::from_secs(5), 10, 0), "--:--");
}

#[test]
fn line_is_filled_to_the_terminal_width() {
    assert_eq!(fit_progress_label("ab", "12%", Some(10)), "ab     12%");
    assert_eq!(fit_progress_label("ab", "12%", Some(6)), "ab 12%");
    assert_eq!(
        console::measure_text_width(&fit_progress_label("ab", "12%", None)),
        80
    );
}

#[test]
fn label_is_cut_to_leave_room_for_the_statistics() {
    assert_eq!(fit_progress_label("abcdefgh", "12%", Some(10)), "abcde\u{2026} 12%");
    assert_eq!(fit_progress_label("abcdefgh", "12%", Some(11)), "abcdef\u{2026} 12%");
    assert_eq!(fit_progress_label("abcdefgh", "12%", Some(12)), "abcdefgh 12%");
}

#[test]
fn label_keeps_at_least_four_columns() {
    assert_eq!(fit_progress_label("abcdefgh", "12%", Some(3)), "abc\u{2026} 12%");
    assert_eq!(fit_progress_label("abcdefgh", "12%", Some(0)), "abc\u{2026} 12%");
    assert_eq!(fit_progress_label("ab", "12%", Some(0)), "ab   12%");
}

#[test]
fn wide_characters_count_for_two_columns() {
    assert_eq!(fit_progress_label("\u{65e5}\u{672c}", "1", Some(8)), "\u{65e5}\u{672c}   1");
    assert_eq!(
        console::measure_text_width(&fit_progress_label("\u{65e5}\u{672c}", "1", Some(20))),
        20
    );
}

#[test]
fn escape_codes_take_up_no_columns() {
    assert_eq!(fit_progress_label("\u{1b}[31mab\u{1b}[0m", "1", Some(6)), "\u{1b}[31mab\u{1b}[0m   1");
}

#[test]
fn clock_shows_hours_minutes_and_seconds() {
    assert_eq!(eta_string(0, 1, 1), "00:00:00");
    assert_eq!(eta_string(59, 1, 2), "00:00:59");
    assert_eq!(eta_string(3599, 1, 2), "00:59:59");
    assert_eq!(eta_string(3661, 1, 2), "01:01:01");
    assert_eq!(eta_string(360_000, 1, 2), "100:00:00");
    assert_eq!(eta_string(3661, 0, 2), "--:--");
    assert_eq!(eta_string(3661, 1, 0), "--:--");
}

#[test]
fn scan_statistics_show_the_share_of_files() {
    assert_eq!(scan_stats(0, 2, 10), "  0% 0/2 eta --:--");
    assert_eq!(scan_stats(1, 3, 61), " 33% 1/3 eta 00:01:01");
    assert_eq!(scan_stats(3, 3, 0), "100% 3/3 eta 00:00:00");
    assert_eq!(scan_stats(0, 0, 0), "100% 0/0 eta --:--");
}

#[test]
fn encode_statistics_never_exceed_a_hundred_percent() {
    assert_eq!(encode_stats(50, 200, 90), " 25% 50/200 frames eta 00:01:30");
    assert_eq!(encode_stats(250, 200, 0), "100% 250/200 frames eta 00:00:00");
    assert_eq!(encode_stats(0, 0, 0), "100% 0/0 frames eta --:--");
    assert_eq!(
        encode_stats(u64::MAX, u64::MAX, 1),
        "100% 18446744073709551615/18446744073709551615 frames eta 00:00:01"
    );
}

#[test]
fn encode_message_shows_statistics_where_the_length_is_known() {
    assert_eq!(encode_message("Encoding a.mkv", 5, None, 1), "Encoding a.mkv");
    assert_eq!(encode_message("Encoding a.mkv", 5, Some(0), 1), "Encoding a.mkv");
    let message = encode_message("Encoding a.mkv", 5, Some(10), 1);
    assert!(message.starts_with("Encoding a.mkv "));
    assert!(message.ends_with(" 50% 5/10 frames eta 00:00:01"));
}

#[test]
fn lines_without_a_terminal_fill_eighty_columns() {
    assert_eq!(
        fit_progress_label("Scanning a.mkv", "  0% 0/2 eta 00:00:10", None),
        format!("Scanning a.mkv{}  0% 0/2 eta 00:00:10", " ".repeat(45))
    );
    let label = format!("Scanning {}", "x".repeat(200));
    assert_eq!(
        fit_progress_label(&label, "100% 1/1 eta 00:00:00", None),
        format!("Scanning {}\u{2026} 100% 1/1 eta 00:00:00", "x".repeat(48))
    );
}
