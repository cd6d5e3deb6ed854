use remove_bars::paths::{
    check_directory, classify_input, is_video_extension, temp_output_name, InputKind,
};
use remove_bars::text::{
    chars_of, copied_text, decimal_string, labelled, push_padded, push_repeated, replace_char,
    same_text,
};

#[test]
fn video_extensions_are_recognized_in_any_case() {
    for extension in ["mkv", "mp4", "avi", "mov", "wmv", "m4v", "webm", "MKV", "WebM"] {
        assert!(is_video_extension(Some(extension)));
    }
    for extension in ["", "mk", "mkvv", "txt", "\u{212a}", ".mkv", "m\u{212a}v"] {
        assert!(!is_video_extension(Some(extension)));
    }
    assert!(!is_video_extension(None));
}

#[test]
fn temporary_file_stands_next_to_the_original() {
    assert_eq!(temp_output_name("film", Some("mkv"), 4711), "film.remove-bars-4711.mkv");
    assert_eq!(temp_output_name("film", None, 0), "film.remove-bars-0");
    assert_eq!(temp_output_name("a.b", Some("MP4"), 12), "a.b.remove-bars-12.MP4");
}

#[test]
fn input_is_a_directory_or_a_database() {
    assert_eq!(classify_input(true, false, true, "in"), Ok(InputKind::Directory));
    assert_eq!(classify_input(false, true, true, "in"), Ok(InputKind::Database));
    assert_eq!(
        classify_input(false, true, false, "in"),
        Err("Scan database not found: in".to_string())
    );
    assert_eq!(
        classify_input(false, false, false, "in"),
        Err("Input path does not exist: in".to_string())
    );
    assert_eq!(
        classify_input(false, false, true, "in"),
        Err("Input path is neither a directory nor a scan database: in".to_string())
    );
}

#[test]
fn directories_are_checked() {
    assert_eq!(check_directory(true, true, "Input", "in"), Ok(()));
    assert_eq!(
        check_directory(false, false, "Input", "in"),
        Err("Input path does not exist: in".to_string())
    );
    assert_eq!(
        check_directory(true, false, "Output", "out"),
        Err("Output path is not a directory: out".to_string())
    );
}

#[test]
fn numbers_are_written_in_decimal_notation() {
    assert_eq!(decimal_string(0), "0");
    assert_eq!(decimal_string(1090), "1090");
    assert_eq!(decimal_string(u128::MAX), "340282366920938463463374607431768211455");
    assert_eq!(labelled("Total: ", 42), "Total: 42");
}

#[test]
fn numbers_are_padded_on_the_left() {
    let mut out = "x".to_string();
    push_padded(&mut out, 7, 3, '0');
    push_padded(&mut out, 1234, 3, '0');
    push_repeated(&mut out, '-', 2);
    push_repeated(&mut out, '+', 0);
    assert_eq!(out, "x0071234--");
}

#[test]
fn texts_are_compared_and_changed_by_characters() {
    assert!(same_text("aé", "aé"));
    assert!(!same_text("a", "A"));
    assert_eq!(chars_of("aé\u{65e5}"), vec!['a', 'é', '\u{65e5}']);
    assert_eq!(replace_char("aéa", 'a', 'é'), "ééé");
    assert_eq!(copied_text(&Some("a".to_string())), Some("a".to_string()));
    assert_eq!(copied_text(&None), None);
}
