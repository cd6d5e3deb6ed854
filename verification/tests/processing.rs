use remove_bars::capture::FfmpegDiagnostics;
use remove_bars::detect::CropDetection;
use remove_bars::process::{
    crop_filter, CropSource, Event, FileTask, Outcome, OutputMode, Stage,
    SwapStage, Tone, Verdict,
};

fn detected(crop: Option<&str>, failed: bool) -> Event {
    Event::Detected(CropDetection {
        crop: crop.map(str::to_string),
        source_size: Some((1920, 1080)),
        failed,
        diagnostics: FfmpegDiagnostics { errors: vec![], tail: vec![] },
    })
}

fn verdict(task: &FileTask) -> Verdict {
    match task.stage() {
        Stage::Done(verdict) => *verdict,
        _ => panic!("the file is not done"),
    }
}

fn after(mut task: FileTask, events: Vec<Event>) -> FileTask {
    for event in &events {
        task.advance(event);
    }
    task
}

fn mirrored(copy_uncropped: bool, source: CropSource) -> FileTask {
    after(
        FileTask::new(false, copy_uncropped, 8, source),
        vec![Event::DirectoryReady, Event::OutputAbsent],
    )
}

#[test]
fn detected_bars_are_cropped_into_the_output_directory() {
    let task = FileTask::new(false, false, 8, CropSource::Detect);
    assert!(matches!(task.stage(), Stage::PrepareDirectory));
    let task = after(task, vec![Event::DirectoryReady]);
    assert!(matches!(task.stage(), Stage::CheckOutput));
    let task = after(task, vec![Event::OutputAbsent]);
    assert!(matches!(task.stage(), Stage::Detect));
    assert_eq!(task.notices(), vec![(Tone::Cyan, "Detecting black bars...".to_string())]);
    let task = after(task, vec![detected(Some("1920:800:0:140"), false)]);
    assert!(matches!(task.stage(), Stage::Encode(filter) if filter == "crop=1920:800:0:140"));
    assert_eq!(
        task.notices(),
        vec![
            (Tone::Green, "Detected: crop=1920:800:0:140".to_string()),
            (Tone::Cyan, "Encoding with crop filter...".to_string()),
        ]
    );
    let task = after(task, vec![Event::Encoded]);
    assert_eq!(verdict(&task), Verdict::Encoded);
    assert!(task.notices().is_empty());
}

#[test]
fn existing_output_is_skipped() {
    let task = after(
        FileTask::new(false, true, 8, CropSource::Detect),
        vec![Event::DirectoryReady, Event::OutputPresent],
    );
    assert_eq!(verdict(&task), Verdict::OutputExists);
    assert_eq!(verdict(&task).outcome(), Outcome::Skipped);
    assert_eq!(verdict(&task).message("a", "b"), "SKIPPED: Output file already exists");
}

#[test]
fn missing_directory_fails_the_file() {
    let task = after(
        FileTask::new(false, true, 8, CropSource::Detect),
        vec![Event::DirectoryFailed],
    );
    assert_eq!(verdict(&task), Verdict::DirectoryFailed);
    assert_eq!(verdict(&task).outcome(), Outcome::Failed);
    assert_eq!(
        verdict(&task).message("out/a", "denied"),
        "Failed to create directory out/a: denied"
    );
}

#[test]
fn files_without_bars_are_skipped_by_default() {
    let task = after(
        mirrored(false, CropSource::Detect),
        vec![detected(Some("1920:1080:0:0"), false)],
    );
    assert_eq!(verdict(&task), Verdict::NotCopied);
    assert_eq!(verdict(&task).outcome(), Outcome::Skipped);
    assert_eq!(
        verdict(&task).message("", ""),
        "No black bars detected - skipping (use --copy-uncropped to copy unchanged files)"
    );
    assert_eq!(verdict(&after(mirrored(false, CropSource::Scan(None)), vec![])), Verdict::NotCopied);
}

#[test]
fn files_without_bars_are_copied_on_request() {
    let task = after(mirrored(true, CropSource::Detect), vec![detected(None, false)]);
    assert!(matches!(task.stage(), Stage::Copy));
    assert_eq!(
        task.notices(),
        vec![
            (Tone::Yellow, "No black bars detected".to_string()),
            (Tone::Cyan, "Copying file without modification...".to_string()),
        ]
    );
    let task = after(task, vec![Event::Copied]);
    assert_eq!(verdict(&task), Verdict::Copied);
    assert_eq!(verdict(&task).outcome(), Outcome::Processed);
    assert_eq!(verdict(&task).message("", ""), "SUCCESS: Copied without changes");

    let task = after(mirrored(true, CropSource::Scan(None)), vec![Event::CopyFailed]);
    assert_eq!(verdict(&task), Verdict::CopyFailed);
    assert_eq!(verdict(&task).outcome(), Outcome::Failed);
    assert_eq!(verdict(&task).message("a", "full"), "Failed to copy file: full");
    assert!(!verdict(&task).discards_output());
}

#[test]
fn failed_detection_fails_the_file() {
    let task = after(mirrored(true, CropSource::Detect), vec![detected(None, true)]);
    assert_eq!(verdict(&task), Verdict::DetectionFailed);
    assert_eq!(verdict(&task).outcome(), Outcome::Failed);
    assert_eq!(
        verdict(&task).message("", ""),
        "FAILED: FFmpeg returned an error during crop detection"
    );

    let task = after(mirrored(true, CropSource::Detect), vec![Event::DetectionError]);
    assert_eq!(verdict(&task), Verdict::DetectionError);
    assert_eq!(verdict(&task).message("a", "no such file"), "no such file");
    assert_eq!(verdict(&task).outcome(), Outcome::Failed);
}

#[test]
fn crop_of_a_failed_detection_is_used() {
    let task = after(
        mirrored(false, CropSource::Detect),
        vec![detected(Some("1920:800:0:140"), true)],
    );
    assert!(matches!(task.stage(), Stage::Encode(_)));
}

#[test]
fn scan_results_are_used_without_detection() {
    let task = mirrored(false, CropSource::Scan(Some("1440:1080:240:0".to_string())));
    assert!(matches!(task.stage(), Stage::Encode(filter) if filter == "crop=1440:1080:240:0"));
    assert_eq!(
        task.notices(),
        vec![
            (Tone::Green, "Using scan result: crop=1440:1080:240:0".to_string()),
            (Tone::Green, "Detected: crop=1440:1080:240:0".to_string()),
            (Tone::Cyan, "Encoding with crop filter...".to_string()),
        ]
    );
}

#[test]
fn originals_are_replaced_after_encoding() {
    let task = FileTask::new(true, false, 8, CropSource::Detect);
    assert!(matches!(task.stage(), Stage::Detect));
    let task = after(task, vec![detected(Some("1920:800:0:140"), false), Event::Encoded]);
    assert!(matches!(task.stage(), Stage::Replace));
    let task = after(task, vec![Event::Replaced]);
    assert_eq!(verdict(&task), Verdict::Replaced);
    assert_eq!(verdict(&task).outcome(), Outcome::Processed);
    assert_eq!(verdict(&task).message("a.mkv", ""), "SUCCESS: a.mkv (original replaced)");
}

#[test]
fn originals_stay_where_encoding_fails() {
    let source = || CropSource::Scan(Some("1920:800:0:140".to_string()));
    let task = after(FileTask::new(true, false, 8, source()), vec![Event::EncodeRejected]);
    assert_eq!(verdict(&task), Verdict::EncodeRejected);
    assert!(verdict(&task).discards_output());
    assert_eq!(verdict(&task).outcome(), Outcome::Failed);
    assert_eq!(verdict(&task).message("", ""), "FAILED: FFmpeg returned an error");

    let task = after(FileTask::new(true, false, 8, source()), vec![Event::EncodeError]);
    assert_eq!(verdict(&task), Verdict::EncodeError);
    assert!(verdict(&task).discards_output());
    assert_eq!(verdict(&task).message("a", "gone"), "gone");

    let task = after(
        FileTask::new(true, false, 8, source()),
        vec![Event::Encoded, Event::ReplaceFailed],
    );
    assert_eq!(verdict(&task), Verdict::ReplaceFailed);
    assert!(verdict(&task).discards_output());
    assert_eq!(verdict(&task).outcome(), Outcome::Failed);
    assert_eq!(
        verdict(&task).message("/v/a.mkv", "denied"),
        "Failed to replace original /v/a.mkv: denied"
    );
}

#[test]
fn files_without_bars_are_left_as_they_are_in_place() {
    let task = after(
        FileTask::new(true, false, 8, CropSource::Detect),
        vec![detected(Some("1920:1072:0:4"), false)],
    );
    assert_eq!(verdict(&task), Verdict::NothingToDo);
    assert_eq!(verdict(&task).outcome(), Outcome::Skipped);
    assert_eq!(
        verdict(&task).message("", ""),
        "No black bars detected - nothing to do, file left as is"
    );
    let task = FileTask::new(true, true, 8, CropSource::Scan(None));
    assert_eq!(verdict(&task), Verdict::NothingToDo);
}

#[test]
fn events_out_of_turn_change_nothing() {
    let task = after(
        FileTask::new(false, false, 8, CropSource::Detect),
        vec![Event::Encoded, Event::Replaced, Event::OutputAbsent],
    );
    assert!(matches!(task.stage(), Stage::PrepareDirectory));
    let task = after(task, vec![Event::DirectoryFailed, Event::DirectoryReady]);
    assert_eq!(verdict(&task), Verdict::DirectoryFailed);
}

#[test]
fn finished_encodes_name_the_file() {
    assert_eq!(Verdict::Encoded.message("sub/a.mkv", ""), "SUCCESS: sub/a.mkv");
    assert_eq!(Verdict::Encoded.outcome(), Outcome::Processed);
    assert!(!Verdict::Encoded.discards_output());
}

#[test]
fn crop_filter_names_the_crop_value() {
    assert_eq!(crop_filter("1920:800:0:140"), "crop=1920:800:0:140");
}

#[test]
fn output_target_is_named() {
    assert_eq!(OutputMode::Mirror("/out".to_string()).target_line(), "Output: /out");
    assert_eq!(
        OutputMode::InPlace.target_line(),
        "Mode:   in-place (originals are overwritten)"
    );
}

#[test]
fn replacing_falls_back_to_copy_and_delete() {
    assert_eq!(SwapStage::Rename.next(true), SwapStage::Replaced);
    let copying = SwapStage::Rename.next(false);
    assert_eq!(copying, SwapStage::Copy);
    assert_eq!(copying.next(false), SwapStage::CopyFailed);
    assert_eq!(copying.next(true), SwapStage::Remove);
    assert_eq!(copying.next(true).next(true), SwapStage::Replaced);
    assert_eq!(copying.next(true).next(false), SwapStage::RemoveFailed);
    assert_eq!(SwapStage::Replaced.next(false), SwapStage::Replaced);
}
