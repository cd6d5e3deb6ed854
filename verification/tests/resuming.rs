use remove_bars::index::{
    count_entries, idle_reason, indexed_line, is_scan_database, lacks_progress_column, plan_jobs,
    resuming_line, should_record, Idle, ScanEntry,
};
use remove_bars::process::{CropSource, Outcome};
use remove_bars::run::{CropRun, CropTally, QueuedFile, RunEvent, RunStep};

fn entry(path: &str, crop: Option<&str>, needs_crop: i64, cropped_at: Option<i64>) -> ScanEntry {
    ScanEntry::from_columns(
        path.to_string(),
        crop.map(str::to_string),
        Some(1920),
        Some(1080),
        needs_crop,
        cropped_at,
    )
}

fn cropped(crop: &str) -> CropSource {
    CropSource::Scan(Some(crop.to_string()))
}

fn queue(sources: Vec<CropSource>, indexed: bool) -> Vec<QueuedFile> {
    sources
        .into_iter()
        .map(|source| QueuedFile { source, indexed })
        .collect()
}

#[test]
fn scan_database_has_both_tables() {
    assert!(!is_scan_database(0));
    assert!(!is_scan_database(1));
    assert!(is_scan_database(2));
}

#[test]
fn older_database_lacks_the_progress_column() {
    assert!(lacks_progress_column(&vec!["path".to_string(), "crop".to_string()]));
    assert!(lacks_progress_column(&vec!["Cropped_at".to_string()]));
    assert!(!lacks_progress_column(&vec!["path".to_string(), "cropped_at".to_string()]));
}

#[test]
fn stored_rows_are_read_back() {
    let entry = entry("a.mkv", Some("1:2:3:4"), 1, None);
    assert_eq!(entry.path, "a.mkv");
    assert_eq!(entry.crop, Some("1:2:3:4".to_string()));
    assert_eq!((entry.width, entry.height), (Some(1920), Some(1080)));
    assert!(entry.needs_crop);
    assert_eq!(entry.cropped_at, None);
    assert!(!ScanEntry::from_columns(String::new(), None, None, None, 0, Some(5)).needs_crop);
    assert!(ScanEntry::from_columns(String::new(), None, None, None, -1, None).needs_crop);
}

#[test]
fn threshold_is_applied_again_to_indexed_crops() {
    let slight = entry("a.mkv", Some("1920:1040:0:20"), 1, None);
    assert!(matches!(slight.source(8), CropSource::Scan(Some(crop)) if crop == "1920:1040:0:20"));
    assert!(matches!(slight.source(20), CropSource::Scan(None)));
    assert!(matches!(slight.source(40), CropSource::Scan(None)));
}

#[test]
fn cleared_videos_are_never_cropped() {
    let cleared = entry("a.mkv", Some("1920:1040:0:20"), 0, None);
    assert!(matches!(cleared.source(0), CropSource::Scan(None)));
}

#[test]
fn crops_without_a_frame_size_are_kept() {
    let unknown =
        ScanEntry::from_columns("a".to_string(), Some("1:1:0:0".to_string()), Some(1), None, 1, None);
    assert!(matches!(unknown.source(8), CropSource::Scan(Some(_))));
}

#[test]
fn missing_crops_are_detected_anew() {
    assert!(matches!(entry("a.mkv", None, 1, None).source(8), CropSource::Detect));
}

#[test]
fn cropped_videos_are_not_planned_again() {
    let entries = vec![
        entry("a.mkv", Some("1920:800:0:140"), 1, Some(7)),
        entry("b.mkv", Some("1920:800:0:140"), 1, None),
        entry("c.mkv", None, 0, None),
        entry("d.mkv", None, 1, Some(9)),
    ];
    let jobs = plan_jobs(&entries, 8);
    assert_eq!(jobs.len(), 2);
    assert_eq!(jobs[0].path, "b.mkv");
    assert!(matches!(&jobs[0].source, CropSource::Scan(Some(crop)) if crop == "1920:800:0:140"));
    assert_eq!(jobs[1].path, "c.mkv");
    assert!(matches!(jobs[1].source, CropSource::Scan(None)));
    assert_eq!(count_entries(&entries), (3, 2));
}

#[test]
fn index_is_summed_up() {
    assert_eq!(indexed_line(12, 3), "Indexed 12 video file(s), 3 need cropping");
    assert_eq!(resuming_line(0), None);
    assert_eq!(
        resuming_line(2),
        Some("Resuming: 2 file(s) already cropped and will be skipped".to_string())
    );
}

#[test]
fn reason_for_idleness_is_given() {
    assert_eq!(idle_reason(1, 0), None);
    assert_eq!(idle_reason(1, 4), None);
    assert_eq!(idle_reason(0, 4), Some(Idle::AllCropped));
    assert_eq!(idle_reason(0, 0), Some(Idle::NoVideos));
    assert_eq!(Idle::AllCropped.message(), "All indexed file(s) have already been cropped");
    assert_eq!(Idle::NoVideos.message(), "No video files found");
}

#[test]
fn only_successful_crops_are_recorded() {
    assert!(should_record(Outcome::Processed, &CropSource::Detect, true));
    assert!(should_record(Outcome::Processed, &cropped("1:2:3:4"), true));
    assert!(!should_record(Outcome::Processed, &CropSource::Scan(None), true));
    assert!(!should_record(Outcome::Processed, &CropSource::Detect, false));
    assert!(!should_record(Outcome::Skipped, &CropSource::Detect, true));
    assert!(!should_record(Outcome::Failed, &CropSource::Detect, true));
}

#[test]
fn sources_are_copied() {
    assert!(matches!(cropped("1:2:3:4").clone(), CropSource::Scan(Some(crop)) if crop == "1:2:3:4"));
    assert!(matches!(CropSource::Scan(None).clone(), CropSource::Scan(None)));
    assert!(matches!(CropSource::Detect.clone(), CropSource::Detect));
}

#[test]
fn run_takes_up_every_file_in_turn() {
    let mut run = CropRun::new(queue(
        vec![cropped("1:2:3:4"), CropSource::Detect, CropSource::Scan(None), CropSource::Detect],
        true,
    ));
    let story = [
        (RunStep::Locate(0), RunEvent::Found),
        (RunStep::Process(0), RunEvent::Processed(Outcome::Processed)),
        (RunStep::Record(0), RunEvent::Recorded),
        (RunStep::Locate(1), RunEvent::Missing),
        (RunStep::Locate(2), RunEvent::Found),
        (RunStep::Process(2), RunEvent::Processed(Outcome::Processed)),
        (RunStep::Locate(3), RunEvent::Found),
        (RunStep::Process(3), RunEvent::Processed(Outcome::Failed)),
    ];
    for (step, event) in story {
        assert_eq!(run.step(), step);
        run.advance(event);
    }
    assert_eq!(run.step(), RunStep::Finished);
    assert_eq!(run.tally(), CropTally { processed: 2, skipped: 1, failed: 1 });
    run.advance(RunEvent::Found);
    assert_eq!(run.step(), RunStep::Finished);
}

#[test]
fn run_over_a_directory_records_nothing() {
    let mut run = CropRun::new(queue(vec![CropSource::Detect], false));
    run.advance(RunEvent::Found);
    run.advance(RunEvent::Processed(Outcome::Processed));
    assert_eq!(run.step(), RunStep::Finished);
    assert_eq!(CropRun::new(vec![]).step(), RunStep::Finished);
}

#[test]
fn outcomes_are_summed_up() {
    let mut tally = CropTally::new();
    tally.record(Outcome::Processed);
    tally.record(Outcome::Skipped);
    tally.record(Outcome::Failed);
    tally.record(Outcome::Skipped);
    assert_eq!(
        tally.summary_lines(4),
        vec!["Processed: 1", "Skipped:   2", "Failed:    1", "Total:     4"]
    );
}

#[test]
fn later_run_takes_up_what_was_not_cropped() {
    let mut entries = vec![
        entry("a.mkv", Some("1920:800:0:140"), 1, None),
        entry("b.mkv", None, 0, None),
        entry("c.mkv", Some("1920:800:0:140"), 1, None),
        entry("d.mkv", None, 1, None),
    ];
    let outcomes = [
        Some(Outcome::Processed),
        Some(Outcome::Processed),
        Some(Outcome::Failed),
        None,
    ];
    for (entry, outcome) in entries.iter_mut().zip(outcomes) {
        if let Some(outcome) = outcome {
            if should_record(outcome, &entry.source(8), true) {
                entry.cropped_at = Some(1);
            }
        }
    }
    let paths: Vec<String> = plan_jobs(&entries, 8).into_iter().map(|job| job.path).collect();
    assert_eq!(paths, vec!["b.mkv", "c.mkv", "d.mkv"]);
    assert_eq!(count_entries(&entries), (3, 1));
}

#[test]
fn run_over_an_index_records_what_the_next_run_leaves_out() {
    let mut entries = vec![
        entry("a.mkv", Some("1920:800:0:140"), 1, Some(3)),
        entry("b.mkv", Some("1920:800:0:140"), 1, None),
        entry("c.mkv", Some("1920:1080:0:0"), 1, None),
        entry("d.mkv", None, 1, None),
        entry("e.mkv", Some("1920:800:0:140"), 1, None),
    ];
    let jobs = plan_jobs(&entries, 8);
    let mut run = CropRun::new(queue(jobs.iter().map(|job| job.source.clone()).collect(), true));
    let outcomes = [Outcome::Processed, Outcome::Processed, Outcome::Failed, Outcome::Processed];
    let mut recorded = vec![];
    loop {
        let event = match run.step() {
            RunStep::Locate(3) => break,
            RunStep::Locate(_) => RunEvent::Found,
            RunStep::Process(i) => RunEvent::Processed(outcomes[i]),
            RunStep::Record(i) => {
                recorded.push(jobs[i].path.clone());
                RunEvent::Recorded
            }
            RunStep::Finished => unreachable!(),
        };
        run.advance(event);
    }
    assert_eq!(recorded, vec!["b.mkv"]);
    for entry in entries.iter_mut() {
        if recorded.contains(&entry.path) {
            entry.cropped_at = Some(5);
        }
    }
    let paths: Vec<String> = plan_jobs(&entries, 8).into_iter().map(|job| job.path).collect();
    assert_eq!(paths, vec!["c.mkv", "d.mkv", "e.mkv"]);
}

#[test]
fn upgraded_table_is_not_upgraded_again() {
    let mut columns = vec!["path".to_string(), "needs_crop".to_string()];
    assert!(lacks_progress_column(&columns));
    columns.push("cropped_at".to_string());
    assert!(!lacks_progress_column(&columns));
}

#[test]
fn unmarked_index_is_planned_in_full() {
    let entries = vec![entry("a", None, 0, None), entry("b", None, 1, None)];
    assert_eq!(plan_jobs(&entries, 8).len(), 2);
    assert_eq!(count_entries(&entries).1, 0);
}
