//! Scanning: what is recorded about each video, and how the results add up.
use vstd::prelude::*;
use vstd::string::*;

use crate::capture::FfmpegDiagnostics;
use crate::crop::crop_text;
use crate::detect::{is_negligible, law_bars_at_any_edge_are_worth_removing, CropDetection};
use crate::process::Tone;
use crate::text::{
    copied_text,
    decimal,
    labelled,
    push_decimal,
    replace_char,
    replaced,
    text_of,
    texts,
};

verus! {

/// Number of scan results buffered in memory before they are dumped to the database in a single
/// transaction.
pub const SCAN_BATCH_SIZE: usize = 100;

/// Whether a video could be scanned.
#[derive(Clone, Copy, Debug, PartialEq, Eq, Structural)]
pub enum ScanStatus {
    Scanned,
    Error,
}

impl ScanStatus {
    /// The word that stands for the status in the database.
    pub open spec fn word(self) -> Seq<char> {
        match self {
            ScanStatus::Scanned => "scanned"@,
            ScanStatus::Error => "error"@,
        }
    }

    /// The word that stands for the status in the database.
    pub fn as_str(self) -> (word: &'static str)
        ensures
            word@ == self.word(),
    {
        match self {
            ScanStatus::Scanned => "scanned",
            ScanStatus::Error => "error",
        }
    }
}

/// A single file's scan result, buffered in memory and dumped to the scan database in batches.
pub struct ScanRow {
    pub path: String,
    pub crop: Option<String>,
    pub width: Option<u32>,
    pub height: Option<u32>,
    pub needs_crop: bool,
    pub status: ScanStatus,
}

/// A scan result, as a value of its own.
pub struct RowView {
    pub path: Seq<char>,
    pub crop: Option<Seq<char>>,
    pub width: Option<u32>,
    pub height: Option<u32>,
    pub needs_crop: bool,
    pub status: ScanStatus,
}

impl View for ScanRow {
    type V = RowView;

    open spec fn view(&self) -> RowView {
        RowView {
            path: self.path@,
            crop: text_of(self.crop),
            width: self.width,
            height: self.height,
            needs_crop: self.needs_crop,
            status: self.status,
        }
    }
}

/// The result for a video that could not be scanned.
pub open spec fn error_row(path: Seq<char>) -> RowView {
    RowView {
        path,
        crop: None,
        width: None,
        height: None,
        needs_crop: false,
        status: ScanStatus::Error,
    }
}

/// The result for a video of which this was detected: a run that came to nothing is an error; the
/// detected crop is recorded in any case, and is needed unless it is negligible.
pub open spec fn detected_row(
    path: Seq<char>,
    detection: CropDetection,
    threshold: u32,
) -> RowView {
    if detection.came_to_nothing() {
        error_row(path)
    } else {
        RowView {
            path,
            crop: text_of(detection.crop),
            width: match detection.source_size {
                Some((w, h)) => Some(w),
                None => None,
            },
            height: match detection.source_size {
                Some((w, h)) => Some(h),
                None => None,
            },
            needs_crop: detection.bars(threshold) is Some,
            status: ScanStatus::Scanned,
        }
    }
}

/// What is said about a scanned video.
pub open spec fn finding(row: RowView) -> (Tone, Seq<char>) {
    match row.crop {
        Some(value) => if row.needs_crop {
            (Tone::Green, "Needs cropping: crop="@ + value)
        } else {
            (Tone::Yellow, "No black bars detected"@)
        },
        None => (Tone::Yellow, "No black bars detected"@),
    }
}

impl ScanRow {
    /// The result for a video that could not be scanned.
    pub fn error(path: String) -> (row: ScanRow)
        ensures
            row@ == error_row(path@),
    {
        ScanRow {
            path,
            crop: None,
            width: None,
            height: None,
            needs_crop: false,
            status: ScanStatus::Error,
        }
    }

    /// The result for a video of which this was detected.
    pub fn from_detection(path: String, detection: &CropDetection, threshold: u32) -> (row: ScanRow)
        ensures
            row@ == detected_row(path@, *detection, threshold),
    {
        if detection.is_failure() {
            return ScanRow::error(path);
        }
        let needs_crop = detection.crop.is_some() && !is_negligible(
            &detection.crop,
            detection.source_size,
            threshold,
        );
        let (width, height) = match detection.source_size {
            Some((w, h)) => (Some(w), Some(h)),
            None => (None, None),
        };
        ScanRow {
            path,
            crop: copied_text(&detection.crop),
            width,
            height,
            needs_crop,
            status: ScanStatus::Scanned,
        }
    }

    /// What is said about a scanned video.
    pub fn report(&self) -> (report: (Tone, String))
        ensures
            (report.0, report.1@) == finding(self@),
    {
        match &self.crop {
            Some(value) => if self.needs_crop {
                let mut text = "Needs cropping: crop=".to_owned();
                text.append(value.as_str());
                (Tone::Green, text)
            } else {
                (Tone::Yellow, "No black bars detected".to_owned())
            },
            None => (Tone::Yellow, "No black bars detected".to_owned()),
        }
    }

    /// The number that stands for `needs_crop` in the database.
    pub fn needs_crop_flag(&self) -> (flag: i64)
        ensures
            flag == needs_crop_number(self.needs_crop),
    {
        if self.needs_crop {
            1
        } else {
            0
        }
    }
}

/// The number that stands for a yes or a no in the database.
pub open spec fn needs_crop_number(needs_crop: bool) -> int {
    if needs_crop {
        1
    } else {
        0
    }
}

/// The position of a file among all files, and its name.
pub open spec fn position_text(index: nat, total: nat, name: Seq<char>) -> Seq<char> {
    "["@ + decimal(index) + "/"@ + decimal(total) + "] "@ + name + ": "@
}

/// The position of a file among all files, and its name: `[index/total] name: `.
pub fn position_label(index: usize, total: usize, name: &str) -> (label: String)
    ensures
        label@ == position_text(index as nat, total as nat, name@),
{
    let mut label = "[".to_owned();
    push_decimal(&mut label, index as u128);
    label.append("/");
    push_decimal(&mut label, total as u128);
    label.append("] ");
    label.append(name);
    label.append(": ");
    label
}

/// Lines, each on a line of its own and indented.
pub open spec fn indented(lines: Seq<Seq<char>>) -> Seq<char>
    decreases lines.len(),
{
    if lines.len() == 0 {
        Seq::empty()
    } else {
        indented(lines.drop_last()) + "\n  "@ + lines.last()
    }
}

/// What is said about a video whose detection failed: the error lines that ffmpeg logged follow.
pub fn failure_report(diagnostics: &FfmpegDiagnostics) -> (report: String)
    ensures
        report@ == "FFmpeg returned an error during crop detection"@ + indented(
            texts(diagnostics.errors@),
        ),
{
    let mut report = "FFmpeg returned an error during crop detection".to_owned();
    let ghost start = report@;
    let ghost all = texts(diagnostics.errors@);
    assert(report@ =~= start + indented(all.take(0)));
    for i in 0..diagnostics.errors.len()
        invariant
            all == texts(diagnostics.errors@),
            report@ == start + indented(all.take(i as int)),
    {
        report.append("\n  ");
        report.append(diagnostics.errors[i].as_str());
        assert(all.take(i + 1).drop_last() == all.take(i as int));
        assert(report@ =~= start + indented(all.take(i + 1)));
    }
    assert(all.take(diagnostics.errors@.len() as int) == all);
    report
}

/// The path under which a video is recorded: its path below the scanned directory, with a slash for
/// the character that separates directories on the platform, or its bare name where it lies
/// elsewhere.
pub open spec fn recorded_path(below: Option<Seq<char>>, name: Seq<char>, separator: char) -> Seq<
    char,
> {
    match below {
        Some(path) => replaced(path, separator, '/'),
        None => name,
    }
}

/// The path under which a video is recorded. Where the platform itself separates directories by
/// slashes, that is the path below the scanned directory as it stands.
pub fn relative_path(below: Option<&str>, name: &str, separator: char) -> (path: String)
    ensures
        path@ == recorded_path(
            match below {
                Some(p) => Some(p@),
                None => None,
            },
            name@,
            separator,
        ),
        below matches Some(p) ==> (separator == '/' ==> path@ == p@),
{
    match below {
        Some(path) => {
            proof {
                law_recorded_paths_are_relative_paths(path@, name@);
            }
            replace_char(path, separator, '/')
        },
        None => name.to_owned(),
    }
}

/// Where directories are separated by slashes, a video below the scanned directory is recorded under
/// exactly its path relative to it.
pub proof fn law_recorded_paths_are_relative_paths(path: Seq<char>, name: Seq<char>)
    ensures
        recorded_path(Some(path), name, '/') == path,
{
    assert(replaced(path, '/', '/') =~= path);
}

/// Different videos are recorded under different paths, whatever the separator: no name of a file or
/// directory holds a slash where another character separates them.
pub proof fn law_recorded_paths_are_told_apart(
    first: Seq<char>,
    second: Seq<char>,
    name: Seq<char>,
    separator: char,
)
    requires
        separator != '/' ==> !first.contains('/') && !second.contains('/'),
        recorded_path(Some(first), name, separator) == recorded_path(Some(second), name, separator),
    ensures
        first == second,
{
    let a = replaced(first, separator, '/');
    let b = replaced(second, separator, '/');
    assert(first.len() == a.len() && second.len() == b.len());
    assert forall|i: int| 0 <= i < first.len() implies first[i] == second[i] by {
        assert(a[i] == b[i]);
        assert(separator != '/' ==> first[i] != '/' && second[i] != '/');
    }
    assert(first =~= second);
}

/// How many results there are of each kind.
#[derive(Clone, Copy, Debug, PartialEq, Eq, Structural)]
pub struct ScanTally {
    pub needs_crop: usize,
    pub no_crop: usize,
    pub errors: usize,
}

/// What sums up a scan of `total` files.
pub open spec fn summary_texts(tally: ScanTally, total: nat) -> Seq<Seq<char>> {
    seq![
        "Need cropping: "@ + decimal(tally.needs_crop as nat),
        "No crop:       "@ + decimal(tally.no_crop as nat),
        "Errors:        "@ + decimal(tally.errors as nat),
        "Total:         "@ + decimal(total),
    ]
}

impl ScanTally {
    /// The number of results.
    pub open spec fn total(self) -> int {
        self.needs_crop + self.no_crop + self.errors
    }

    /// The tally after one more result.
    pub open spec fn with(self, row: RowView) -> (int, int, int) {
        if row.status == ScanStatus::Error {
            (self.needs_crop as int, self.no_crop as int, self.errors + 1)
        } else if row.needs_crop {
            (self.needs_crop + 1, self.no_crop as int, self.errors as int)
        } else {
            (self.needs_crop as int, self.no_crop + 1, self.errors as int)
        }
    }

    /// An empty tally.
    pub fn new() -> (tally: ScanTally)
        ensures
            tally == (ScanTally { needs_crop: 0, no_crop: 0, errors: 0 }),
    {
        ScanTally { needs_crop: 0, no_crop: 0, errors: 0 }
    }

    /// Counts one result: an error, or a video that needs cropping, or one that does not.
    pub fn record(&mut self, row: &ScanRow)
        requires
            old(self).total() < usize::MAX,
        ensures
            (final(self).needs_crop as int, final(self).no_crop as int, final(self).errors as int)
                == old(self).with(row@),
    {
        match row.status {
            ScanStatus::Error => {
                self.errors = self.errors + 1;
            },
            ScanStatus::Scanned => if row.needs_crop {
                self.needs_crop = self.needs_crop + 1;
            } else {
                self.no_crop = self.no_crop + 1;
            },
        }
    }

    /// Whether the tally can take this many more results.
    pub fn has_room_for(&self, rows: usize) -> (room: bool)
        ensures
            room == (self.total() + rows <= usize::MAX),
    {
        self.needs_crop as u128 + self.no_crop as u128 + self.errors as u128 + rows as u128
            <= usize::MAX as u128
    }

    /// Counts the results of a batch.
    pub fn record_batch(&mut self, rows: &Vec<ScanRow>)
        requires
            old(self).total() + rows@.len() <= usize::MAX,
        ensures
            final(self).needs_crop == old(self).needs_crop + counted_rows(row_views(rows@)).0,
            final(self).no_crop == old(self).no_crop + counted_rows(row_views(rows@)).1,
            final(self).errors == old(self).errors + counted_rows(row_views(rows@)).2,
    {
        reveal(Seq::filter);
        let ghost all = row_views(rows@);
        let ghost start = *self;
        for i in 0..rows.len()
            invariant
                all == row_views(rows@),
                start.total() + rows@.len() <= usize::MAX,
                self.needs_crop == start.needs_crop + counted_rows(all.take(i as int)).0,
                self.no_crop == start.no_crop + counted_rows(all.take(i as int)).1,
                self.errors == start.errors + counted_rows(all.take(i as int)).2,
        {
            reveal(Seq::filter);
            proof {
                law_kinds_add_up(all.take(i as int));
                assert(all.take(i + 1).drop_last() == all.take(i as int));
                assert(all.take(i + 1).last() == rows@[i as int]@);
            }
            self.record(&rows[i]);
        }
        assert(all.take(rows@.len() as int) == all);
    }

    /// The lines that sum up a scan of `total` files.
    pub fn summary_lines(&self, total: usize) -> (lines: Vec<String>)
        ensures
            texts(lines@) == summary_texts(*self, total as nat),
    {
        let lines = vec![
            labelled("Need cropping: ", self.needs_crop as u128),
            labelled("No crop:       ", self.no_crop as u128),
            labelled("Errors:        ", self.errors as u128),
            labelled("Total:         ", total as u128),
        ];
        assert(texts(lines@) =~= summary_texts(*self, total as nat));
        lines
    }
}

/// Whether `total` positions are covered by these batches, one after the other, each full but for
/// the last.
pub open spec fn are_batches(batches: Seq<(usize, usize)>, total: nat) -> bool {
    &&& batches.len() == (total + SCAN_BATCH_SIZE - 1) / SCAN_BATCH_SIZE as int
    &&& forall|i: int|
        0 <= i < batches.len() ==> (#[trigger] batches[i]).0 == i * SCAN_BATCH_SIZE && batches[i].1
            == if (i + 1) * SCAN_BATCH_SIZE <= total {
            (i + 1) * SCAN_BATCH_SIZE
        } else {
            total as int
        }
}

/// The batches in which `total` files are scanned, each as its first position and the one after its
/// last.
pub fn scan_batches(total: usize) -> (batches: Vec<(usize, usize)>)
    ensures
        are_batches(batches@, total as nat),
{
    let mut batches: Vec<(usize, usize)> = Vec::new();
    let mut start: usize = 0;
    while start < total
        invariant
            start <= total,
            start < total ==> start == batches@.len() * SCAN_BATCH_SIZE,
            start == total ==> batches@.len() == (total + SCAN_BATCH_SIZE - 1)
                / SCAN_BATCH_SIZE as int,
            forall|i: int|
                0 <= i < batches@.len() ==> (#[trigger] batches@[i]).0 == i * SCAN_BATCH_SIZE
                    && batches@[i].1 == if (i + 1) * SCAN_BATCH_SIZE <= total {
                    (i + 1) * SCAN_BATCH_SIZE
                } else {
                    total as int
                },
        decreases total - start,
    {
        let end: usize = if total - start <= SCAN_BATCH_SIZE {
            total
        } else {
            start + SCAN_BATCH_SIZE
        };
        batches.push((start, end));
        start = end;
    }
    batches
}

/// Every file is scanned in exactly one batch, and the batches keep the order of the files.
pub proof fn law_every_file_is_in_one_batch(
    batches: Seq<(usize, usize)>,
    total: nat,
    file: int,
    i: int,
)
    requires
        are_batches(batches, total),
        0 <= file < total,
        0 <= i < batches.len(),
    ensures
        batches[i].0 <= file < batches[i].1 <==> i == file / 100,
        0 <= file / 100 < batches.len(),
        batches[i].0 < batches[i].1 <= total,
        batches[i].1 - batches[i].0 <= 100,
        i < batches.len() - 1 ==> batches[i].1 - batches[i].0 == 100,
        i > 0 ==> batches[i - 1].1 == batches[i].0,
{
}

/// The result for a video: of what was detected, or, where the detection could not be run to its end,
/// an error.
pub open spec fn file_row(
    path: Seq<char>,
    detection: Option<CropDetection>,
    threshold: u32,
) -> RowView {
    match detection {
        Some(found) => detected_row(path, found, threshold),
        None => error_row(path),
    }
}

/// The results for all videos, in their order.
pub open spec fn file_rows(
    paths: Seq<Seq<char>>,
    detections: Seq<Option<CropDetection>>,
    threshold: u32,
) -> Seq<RowView> {
    Seq::new(paths.len(), |i: int| file_row(paths[i], detections[i], threshold))
}

/// The results for the videos of some batches, one batch after the other.
pub open spec fn batched_rows(
    batches: Seq<(usize, usize)>,
    paths: Seq<Seq<char>>,
    detections: Seq<Option<CropDetection>>,
    threshold: u32,
) -> Seq<RowView>
    decreases batches.len(),
{
    if batches.len() == 0 {
        Seq::empty()
    } else {
        let (start, end) = batches.last();
        batched_rows(batches.drop_last(), paths, detections, threshold) + file_rows(
            paths.subrange(start as int, end as int),
            detections.subrange(start as int, end as int),
            threshold,
        )
    }
}

/// The first batches give the results for the videos up to their end.
proof fn lemma_first_batches(
    batches: Seq<(usize, usize)>,
    paths: Seq<Seq<char>>,
    detections: Seq<Option<CropDetection>>,
    threshold: u32,
    n: int,
)
    requires
        are_batches(batches, paths.len()),
        detections.len() == paths.len(),
        0 <= n <= batches.len(),
    ensures
        batched_rows(batches.take(n), paths, detections, threshold) == file_rows(
            paths,
            detections,
            threshold,
        ).take(
            if n == 0 {
                0
            } else {
                batches[n - 1].1 as int
            },
        ),
    decreases n,
{
    let all = file_rows(paths, detections, threshold);
    if n > 0 {
        lemma_first_batches(batches, paths, detections, threshold, n - 1);
        let (start, end) = batches[n - 1];
        law_every_file_is_in_one_batch(batches, paths.len(), 0, n - 1);
        assert(batches.take(n).drop_last() == batches.take(n - 1));
        assert(batches.take(n).last() == batches[n - 1]);
        let part = file_rows(
            paths.subrange(start as int, end as int),
            detections.subrange(start as int, end as int),
            threshold,
        );
        assert(part =~= all.subrange(start as int, end as int));
        assert(all.take(start as int) + part =~= all.take(end as int));
    } else {
        assert(batches.take(0) == Seq::<(usize, usize)>::empty());
        assert(all.take(0) =~= Seq::empty());
    }
}

/// The results of a scan depend on the videos, on what is detected of each and on the threshold
/// alone, however they are shared out: the batches, one after the other, give each video its own
/// result, in the order of the videos.
pub proof fn law_batches_give_every_file_its_row(
    batches: Seq<(usize, usize)>,
    paths: Seq<Seq<char>>,
    detections: Seq<Option<CropDetection>>,
    threshold: u32,
)
    requires
        are_batches(batches, paths.len()),
        detections.len() == paths.len(),
    ensures
        batched_rows(batches, paths, detections, threshold) == file_rows(
            paths,
            detections,
            threshold,
        ),
        batched_rows(batches, paths, detections, threshold).len() == paths.len(),
        forall|i: int|
            0 <= i < paths.len() ==> (#[trigger] batched_rows(
                batches,
                paths,
                detections,
                threshold,
            )[i]) == file_row(paths[i], detections[i], threshold),
{
    let all = file_rows(paths, detections, threshold);
    lemma_first_batches(batches, paths, detections, threshold, batches.len() as int);
    assert(batches.take(batches.len() as int) == batches);
    if batches.len() > 0 {
        assert(batches[batches.len() - 1].1 == paths.len());
    }
    assert(all.take(paths.len() as int) =~= all);
}

/// The counts of two lists of results, one after the other, are the sums of their counts, so that
/// counting batch by batch counts all results.
pub proof fn law_batches_are_counted_one_by_one(first: Seq<RowView>, second: Seq<RowView>)
    ensures
        counted_rows(first + second).0 == counted_rows(first).0 + counted_rows(second).0,
        counted_rows(first + second).1 == counted_rows(first).1 + counted_rows(second).1,
        counted_rows(first + second).2 == counted_rows(first).2 + counted_rows(second).2,
    decreases second.len(),
{
    reveal(Seq::filter);
    if second.len() == 0 {
        assert(first + second == first);
    } else {
        law_batches_are_counted_one_by_one(first, second.drop_last());
        assert((first + second).drop_last() == first + second.drop_last());
    }
}

/// What is said about the settings of a scan: the window reaches from its start to as many seconds
/// later as are analyzed.
pub open spec fn settings_text(
    parallel: nat,
    start: nat,
    seconds: nat,
    threshold: nat,
) -> Seq<char> {
    "Parallel: "@ + decimal(parallel) + " | Window: "@ + decimal(start) + "s.."@ + decimal(
        start + seconds,
    ) + "s | Threshold: "@ + decimal(threshold) + "px"@
}

/// The line that names the settings of a scan: the parallelism, the analyzed window and the
/// threshold.
pub fn settings_line(parallel: usize, start: u64, seconds: u64, threshold: u32) -> (line: String)
    ensures
        line@ == settings_text(parallel as nat, start as nat, seconds as nat, threshold as nat),
{
    let mut line = labelled("Parallel: ", parallel as u128);
    line.append(" | Window: ");
    push_decimal(&mut line, start as u128);
    line.append("s..");
    push_decimal(&mut line, start as u128 + seconds as u128);
    line.append("s | Threshold: ");
    push_decimal(&mut line, threshold as u128);
    line.append("px");
    line
}

/// The results of a list of rows.
pub open spec fn row_views(rows: Seq<ScanRow>) -> Seq<RowView> {
    Seq::new(rows.len(), |i: int| rows[i]@)
}

/// The counts of a whole list of results: needing a crop, needing none, errors.
pub open spec fn counted_rows(rows: Seq<RowView>) -> (nat, nat, nat) {
    (
        rows.filter(|r: RowView| r.status == ScanStatus::Scanned && r.needs_crop).len(),
        rows.filter(|r: RowView| r.status == ScanStatus::Scanned && !r.needs_crop).len(),
        rows.filter(|r: RowView| r.status == ScanStatus::Error).len(),
    )
}

/// A tally that counts a list of results still counts the list with one more result recorded.
pub proof fn law_recorded_rows_are_counted(tally: ScanTally, rows: Seq<RowView>, row: RowView)
    requires
        counted_rows(rows) == (tally.needs_crop as nat, tally.no_crop as nat, tally.errors as nat),
    ensures
        ({
            let counted = counted_rows(rows.push(row));
            (counted.0 as int, counted.1 as int, counted.2 as int) == tally.with(row)
        }),
{
    reveal(Seq::filter);
    assert(rows.push(row).drop_last() == rows);
}

/// Every result is counted under exactly one kind.
pub proof fn law_kinds_add_up(rows: Seq<RowView>)
    ensures
        counted_rows(rows).0 + counted_rows(rows).1 + counted_rows(rows).2 == rows.len(),
    decreases rows.len(),
{
    reveal(Seq::filter);
    if rows.len() > 0 {
        law_kinds_add_up(rows.drop_last());
    }
}

/// A video is recorded as needing a crop exactly where its detected crop is worth applying, and then
/// that crop is recorded.
pub proof fn law_needed_crops_are_recorded(
    path: Seq<char>,
    detection: CropDetection,
    threshold: u32,
)
    ensures
        detected_row(path, detection, threshold).needs_crop <==> detection.bars(threshold) is Some,
        detected_row(path, detection, threshold).needs_crop ==> detected_row(
            path,
            detection,
            threshold,
        ).crop == detection.bars(threshold),
{
}

/// A scan records what was detected as it is: the path, the crop in any case, and the width and the
/// height of the frame each in its own place; a run that failed without a report is an error, of
/// which nothing but the path is recorded.
pub proof fn law_detections_are_recorded_as_they_are(
    path: Seq<char>,
    detection: CropDetection,
    threshold: u32,
)
    ensures
        ({
            let row = detected_row(path, detection, threshold);
            let nothing = detection.failed && detection.crop is None;
            &&& row.path == path
            &&& nothing <==> row.status is Error
            &&& !nothing ==> {
                &&& detection.crop matches Some(value) ==> row.crop == Some(value@)
                &&& detection.crop is None ==> row.crop is None
                &&& detection.source_size matches Some(size) ==> row.width == Some(size.0)
                    && row.height == Some(size.1)
                &&& detection.source_size is None ==> row.width is None && row.height is None
            }
            &&& nothing ==> row == error_row(path)
            &&& error_row(path).path == path && error_row(path).status is Error
            &&& error_row(path).crop is None && !error_row(path).needs_crop
            &&& error_row(path).width is None && error_row(path).height is None
        }),
{
}

/// A video needs cropping exactly where its detected crop trims more than the threshold from at least
/// one edge of the frame, or is larger than the frame.
pub proof fn law_videos_with_bars_need_cropping(
    path: Seq<char>,
    detection: CropDetection,
    threshold: u32,
    width: u32,
    height: u32,
    x: u32,
    y: u32,
    size: (u32, u32),
)
    requires
        detection.crop matches Some(value) && value@ == crop_text(width, height, x, y),
        detection.source_size == Some(size),
    ensures
        detected_row(path, detection, threshold).needs_crop <==> !({
            &&& width <= size.0
            &&& height <= size.1
            &&& x <= threshold
            &&& size.0 - (x + width) <= threshold
            &&& y <= threshold
            &&& size.1 - (y + height) <= threshold
        }),
{
    law_bars_at_any_edge_are_worth_removing(width, height, x, y, size, threshold);
}

/// Without a crop none is needed; a crop in a frame of unknown size is needed.
pub proof fn law_crops_without_a_size_are_needed(
    path: Seq<char>,
    detection: CropDetection,
    threshold: u32,
)
    ensures
        detection.crop is None ==> !detected_row(path, detection, threshold).needs_crop,
        detection.crop is Some && detection.source_size is None ==> detected_row(
            path,
            detection,
            threshold,
        ).needs_crop,
{
}

/// The finding about a video names the crop that it needs, or says that there are no bars.
pub proof fn law_findings_name_the_needed_crop(row: RowView)
    ensures
        row.needs_crop ==> (row.crop matches Some(value) ==> finding(row) == (
            Tone::Green,
            "Needs cropping: crop="@ + value,
        )),
        !row.needs_crop || row.crop is None ==> finding(row) == (
            Tone::Yellow,
            "No black bars detected"@,
        ),
{
}

/// In the database a status is a word and a need is one or zero.
pub proof fn law_database_words(status: ScanStatus, needs_crop: bool)
    ensures
        status is Scanned ==> status.word() == "scanned"@,
        status is Error ==> status.word() == "error"@,
        needs_crop ==> needs_crop_number(needs_crop) == 1,
        !needs_crop ==> needs_crop_number(needs_crop) == 0,
{
}

/// Another result raises one count by one: that of the errors for an error, else that of the videos
/// that need cropping or that of those that do not. A tally grows in the same way, and its total is
/// the sum of its counts.
pub proof fn law_each_result_raises_one_count(tally: ScanTally, rows: Seq<RowView>, row: RowView)
    ensures
        ({
            let (n, c, e) = counted_rows(rows);
            let (x, y, z) = (tally.needs_crop as int, tally.no_crop as int, tally.errors as int);
            let more = counted_rows(rows.push(row));
            &&& row.status is Error ==> more == (n, c, e + 1) && tally.with(row) == (x, y, z + 1)
            &&& row.status is Scanned && row.needs_crop ==> more == (n + 1, c, e) && tally.with(row)
                == (x + 1, y, z)
            &&& row.status is Scanned && !row.needs_crop ==> more == (n, c + 1, e) && tally.with(row)
                == (x, y + 1, z)
            &&& tally.total() == x + y + z
            &&& counted_rows(Seq::empty()) == (0nat, 0nat, 0nat)
        }),
{
    reveal(Seq::filter);
    assert(rows.push(row).drop_last() == rows);
}

/// A file is labelled by its position among all files and by its name.
pub proof fn law_labels_show_position_and_name(index: nat, total: nat, name: Seq<char>)
    ensures
        position_text(index, total, name) == "["@ + decimal(index) + "/"@ + decimal(total) + "] "@
            + name + ": "@,
{
}

/// Each further line is put on a line of its own, indented by two blanks.
pub proof fn law_lines_are_indented_one_by_one(lines: Seq<Seq<char>>, line: Seq<char>)
    ensures
        indented(Seq::empty()) == Seq::<char>::empty(),
        indented(lines.push(line)) == indented(lines) + "\n  "@ + line,
{
    assert(lines.push(line).drop_last() == lines);
}

/// A video outside the scanned directory is recorded under its name.
pub proof fn law_videos_elsewhere_are_recorded_by_name(name: Seq<char>, separator: char)
    ensures
        recorded_path(None, name, separator) == name,
{
}

/// The view of a result holds what its fields hold.
pub proof fn law_row_views_hold_the_fields(rows: Seq<ScanRow>, i: int)
    requires
        0 <= i < rows.len(),
    ensures
        row_views(rows).len() == rows.len(),
        row_views(rows)[i] == rows[i]@,
        rows[i]@.path == rows[i].path@,
        rows[i].crop is None ==> rows[i]@.crop is None,
        rows[i].crop matches Some(value) ==> rows[i]@.crop == Some(value@),
        rows[i]@.width == rows[i].width,
        rows[i]@.height == rows[i].height,
        rows[i]@.needs_crop == rows[i].needs_crop,
        rows[i]@.status == rows[i].status,
{
}

/// The summary names each count of the tally by its own words, and the number of all files last.
pub proof fn law_summary_names_each_count(tally: ScanTally, total: nat)
    ensures
        summary_texts(tally, total).len() == 4,
        summary_texts(tally, total)[0] == "Need cropping: "@ + decimal(tally.needs_crop as nat),
        summary_texts(tally, total)[1] == "No crop:       "@ + decimal(tally.no_crop as nat),
        summary_texts(tally, total)[2] == "Errors:        "@ + decimal(tally.errors as nat),
        summary_texts(tally, total)[3] == "Total:         "@ + decimal(total),
{
}

/// The settings name the window by its start and by its end, which lies as many seconds later as are
/// analyzed.
pub proof fn law_settings_name_the_window(
    parallel: nat,
    start: nat,
    seconds: nat,
    threshold: nat,
    end: nat,
)
    requires
        end - start == seconds,
    ensures
        settings_text(parallel, start, seconds, threshold) == "Parallel: "@ + decimal(parallel)
            + " | Window: "@ + decimal(start) + "s.."@ + decimal(end) + "s | Threshold: "@
            + decimal(threshold) + "px"@,
{
}

} // verus!
