//! The index that a scan leaves behind, and the work that is still to be done from it.
use vstd::prelude::*;
use vstd::string::*;

use crate::crop::crop_text;
use crate::detect::{
    is_negligible,
    is_negligible_crop,
    law_bars_at_any_edge_are_worth_removing,
    CropDetection,
};
use crate::process::{CropSource, Outcome, SourceView};
use crate::scan::{detected_row, needs_crop_number, RowView};
use crate::text::{copied_text, decimal, labelled, push_decimal, same_text, text_of, texts};

verus! {

/// The column in which a scan database keeps track of the files that were cropped.
pub const PROGRESS_COLUMN: &'static str = "cropped_at";

/// How many tables a scan database has.
pub const SCAN_TABLES: i64 = 2;

/// Whether a database with this many of the expected tables is a scan database.
pub fn is_scan_database(tables: i64) -> (accepted: bool)
    ensures
        accepted == (tables >= SCAN_TABLES),
        accepted <==> tables >= 2,
{
    tables >= SCAN_TABLES
}

/// The columns of the table of videos after its upgrade: where the one that tracks progress was
/// lacking, it is added behind the others.
pub open spec fn upgraded(columns: Seq<Seq<char>>) -> Seq<Seq<char>> {
    if columns.contains(PROGRESS_COLUMN@) {
        columns
    } else {
        columns.push(PROGRESS_COLUMN@)
    }
}

/// Whether the table of videos with these columns lacks the one that tracks progress, and has to be
/// upgraded.
pub fn lacks_progress_column(columns: &Vec<String>) -> (lacking: bool)
    ensures
        lacking == !texts(columns@).contains(PROGRESS_COLUMN@),
        lacking <==> upgraded(texts(columns@)) != texts(columns@),
{
    let ghost all = texts(columns@);
    for i in 0..columns.len()
        invariant
            all == texts(columns@),
            forall|j: int| 0 <= j < i ==> #[trigger] all[j] != PROGRESS_COLUMN@,
    {
        if same_text(columns[i].as_str(), PROGRESS_COLUMN) {
            assert(all[i as int] == PROGRESS_COLUMN@);
            return false;
        }
    }
    assert(upgraded(all).len() == all.len() + 1);
    true
}

/// A video in the index.
pub struct ScanEntry {
    pub path: String,
    pub crop: Option<String>,
    pub width: Option<u32>,
    pub height: Option<u32>,
    pub needs_crop: bool,
    pub cropped_at: Option<i64>,
}

/// A video in the index, as a value of its own.
pub struct EntryView {
    pub path: Seq<char>,
    pub crop: Option<Seq<char>>,
    pub width: Option<u32>,
    pub height: Option<u32>,
    pub needs_crop: bool,
    pub cropped_at: Option<i64>,
}

impl View for ScanEntry {
    type V = EntryView;

    open spec fn view(&self) -> EntryView {
        EntryView {
            path: self.path@,
            crop: text_of(self.crop),
            width: self.width,
            height: self.height,
            needs_crop: self.needs_crop,
            cropped_at: self.cropped_at,
        }
    }
}

/// The videos of an index.
pub open spec fn entry_views(entries: Seq<ScanEntry>) -> Seq<EntryView> {
    Seq::new(entries.len(), |i: int| entries[i]@)
}

/// The frame size, where both numbers are known.
pub open spec fn frame_size(width: Option<u32>, height: Option<u32>) -> Option<(u32, u32)> {
    match (width, height) {
        (Some(w), Some(h)) => Some((w, h)),
        _ => None,
    }
}

/// The entry with the columns of a row in the database.
pub open spec fn stored_entry(
    path: Seq<char>,
    crop: Option<Seq<char>>,
    width: Option<u32>,
    height: Option<u32>,
    needs_crop: int,
    cropped_at: Option<i64>,
) -> EntryView {
    EntryView { path, crop, width, height, needs_crop: needs_crop != 0, cropped_at }
}

/// Where the crop of an indexed video comes from. A video that the scan cleared is never cropped.
/// One that needs a crop is cropped as recorded, unless that crop is negligible at the threshold
/// given now, which may be higher than the one of the scan; without a recorded crop it is detected
/// anew.
pub open spec fn entry_source(entry: EntryView, threshold: u32) -> SourceView {
    if entry.needs_crop {
        match entry.crop {
            Some(crop) => if is_negligible_crop(
                Some(crop),
                frame_size(entry.width, entry.height),
                threshold,
            ) {
                SourceView::Scan(None)
            } else {
                SourceView::Scan(Some(crop))
            },
            None => SourceView::Detect,
        }
    } else {
        SourceView::Scan(None)
    }
}

impl ScanEntry {
    /// The entry with the columns of a row in the database.
    pub fn from_columns(
        path: String,
        crop: Option<String>,
        width: Option<u32>,
        height: Option<u32>,
        needs_crop: i64,
        cropped_at: Option<i64>,
    ) -> (entry: ScanEntry)
        ensures
            entry@ == stored_entry(
                path@,
                text_of(crop),
                width,
                height,
                needs_crop as int,
                cropped_at,
            ),
    {
        ScanEntry { path, crop, width, height, needs_crop: needs_crop != 0, cropped_at }
    }

    /// Where the crop of the video comes from, at the given threshold.
    pub fn source(&self, threshold: u32) -> (source: CropSource)
        ensures
            source@ == entry_source(self@, threshold),
    {
        if !self.needs_crop {
            return CropSource::Scan(None);
        }
        if self.crop.is_none() {
            return CropSource::Detect;
        }
        let size = match (self.width, self.height) {
            (Some(w), Some(h)) => Some((w, h)),
            _ => None,
        };
        if is_negligible(&self.crop, size, threshold) {
            CropSource::Scan(None)
        } else {
            CropSource::Scan(copied_text(&self.crop))
        }
    }
}

/// A video of the index that is still to be processed.
pub struct IndexedJob {
    /// The path of the video below the scanned directory.
    pub path: String,
    /// Where its crop comes from.
    pub source: CropSource,
}

/// The paths and sources of a list of jobs.
pub open spec fn job_views(jobs: Seq<IndexedJob>) -> Seq<(Seq<char>, SourceView)> {
    Seq::new(jobs.len(), |i: int| (jobs[i].path@, jobs[i].source@))
}

/// The videos that are not marked as cropped.
pub open spec fn pending(entries: Seq<EntryView>) -> Seq<EntryView> {
    entries.filter(|e: EntryView| e.cropped_at is None)
}

/// The work that an index leaves to do: every video that is not marked as cropped, in the order of
/// the index.
pub open spec fn planned(entries: Seq<EntryView>, threshold: u32) -> Seq<(Seq<char>, SourceView)> {
    pending(entries).map_values(|e: EntryView| (e.path, entry_source(e, threshold)))
}

/// The work that an index leaves to do.
pub fn plan_jobs(entries: &Vec<ScanEntry>, threshold: u32) -> (jobs: Vec<IndexedJob>)
    ensures
        job_views(jobs@) == planned(entry_views(entries@), threshold),
{
    reveal(Seq::filter);
    let ghost all = entry_views(entries@);
    let mut jobs: Vec<IndexedJob> = Vec::new();
    assert(job_views(jobs@) =~= planned(all.take(0), threshold));
    for i in 0..entries.len()
        invariant
            all == entry_views(entries@),
            job_views(jobs@) == planned(all.take(i as int), threshold),
    {
        reveal(Seq::filter);
        let entry = &entries[i];
        let ghost before = job_views(jobs@);
        assert(all.take(i + 1).drop_last() == all.take(i as int));
        assert(all.take(i + 1).last() == entry@);
        if entry.cropped_at.is_none() {
            jobs.push(IndexedJob { path: entry.path.clone(), source: entry.source(threshold) });
            assert(job_views(jobs@) =~= before.push((entry@.path, entry_source(entry@, threshold))));
        }
        assert(job_views(jobs@) =~= planned(all.take(i + 1), threshold));
    }
    assert(all.take(entries@.len() as int) == all);
    jobs
}

/// How many videos need cropping.
pub open spec fn needing_crop(entries: Seq<EntryView>) -> nat {
    entries.filter(|e: EntryView| e.needs_crop).len()
}

/// How many videos are marked as cropped.
pub open spec fn cropped_already(entries: Seq<EntryView>) -> nat {
    entries.filter(|e: EntryView| e.cropped_at is Some).len()
}

/// How many videos need cropping, and how many of all are marked as cropped.
pub fn count_entries(entries: &Vec<ScanEntry>) -> (counts: (usize, usize))
    ensures
        counts.0 == needing_crop(entry_views(entries@)),
        counts.1 == cropped_already(entry_views(entries@)),
{
    reveal(Seq::filter);
    let ghost all = entry_views(entries@);
    let mut needs_crop: usize = 0;
    let mut already_cropped: usize = 0;
    for i in 0..entries.len()
        invariant
            all == entry_views(entries@),
            needs_crop <= i,
            already_cropped <= i,
            needs_crop == needing_crop(all.take(i as int)),
            already_cropped == cropped_already(all.take(i as int)),
    {
        reveal(Seq::filter);
        let entry = &entries[i];
        assert(all.take(i + 1).drop_last() == all.take(i as int));
        assert(all.take(i + 1).last() == entry@);
        if entry.needs_crop {
            needs_crop = needs_crop + 1;
        }
        if entry.cropped_at.is_some() {
            already_cropped = already_cropped + 1;
        }
    }
    assert(all.take(entries@.len() as int) == all);
    (needs_crop, already_cropped)
}

/// What is said about the number of indexed videos, and of those that need cropping.
pub open spec fn indexed_text(total: nat, needs_crop: nat) -> Seq<char> {
    "Indexed "@ + decimal(total) + " video file(s), "@ + decimal(needs_crop) + " need cropping"@
}

/// What is said about the number of videos that were cropped before, if any were.
pub open spec fn resuming_text(already_cropped: nat) -> Option<Seq<char>> {
    if already_cropped > 0 {
        Some(
            "Resuming: "@ + decimal(already_cropped)
                + " file(s) already cropped and will be skipped"@,
        )
    } else {
        None
    }
}

/// The line that says how many videos are indexed, and how many of them need cropping.
pub fn indexed_line(total: usize, needs_crop: usize) -> (line: String)
    ensures
        line@ == indexed_text(total as nat, needs_crop as nat),
{
    let mut line = labelled("Indexed ", total as u128);
    line.append(" video file(s), ");
    push_decimal(&mut line, needs_crop as u128);
    line.append(" need cropping");
    line
}

/// The line that says how many videos were cropped before, if any were.
pub fn resuming_line(already_cropped: usize) -> (line: Option<String>)
    ensures
        text_of(line) == resuming_text(already_cropped as nat),
{
    if already_cropped > 0 {
        let mut line = labelled("Resuming: ", already_cropped as u128);
        line.append(" file(s) already cropped and will be skipped");
        Some(line)
    } else {
        None
    }
}

/// Why there is nothing to do.
#[derive(Clone, Copy, Debug, PartialEq, Eq, Structural)]
pub enum Idle {
    /// All indexed videos were cropped before.
    AllCropped,
    /// There are no videos.
    NoVideos,
}

impl Idle {
    /// What is said about it.
    pub open spec fn text(self) -> Seq<char> {
        match self {
            Idle::AllCropped => "All indexed file(s) have already been cropped"@,
            Idle::NoVideos => "No video files found"@,
        }
    }

    /// What is said about it.
    pub fn message(self) -> (message: &'static str)
        ensures
            message@ == self.text(),
    {
        match self {
            Idle::AllCropped => "All indexed file(s) have already been cropped",
            Idle::NoVideos => "No video files found",
        }
    }
}

/// Why there is nothing to do, where that is so, with this many jobs and this many videos that were
/// cropped before.
pub open spec fn idle_for(jobs: nat, already_cropped: nat) -> Option<Idle> {
    if jobs > 0 {
        None
    } else if already_cropped > 0 {
        Some(Idle::AllCropped)
    } else {
        Some(Idle::NoVideos)
    }
}

/// Why there is nothing to do, where that is so: there are no jobs.
pub fn idle_reason(jobs: usize, already_cropped: usize) -> (reason: Option<Idle>)
    ensures
        reason == idle_for(jobs as nat, already_cropped as nat),
{
    if jobs > 0 {
        None
    } else if already_cropped > 0 {
        Some(Idle::AllCropped)
    } else {
        Some(Idle::NoVideos)
    }
}

/// The file was cropped, and the index is to remember it: the video is in an index, its processing
/// succeeded, and it was not merely copied or skipped.
pub open spec fn is_recorded(outcome: Outcome, source: SourceView, indexed: bool) -> bool {
    indexed && outcome == Outcome::Processed && source != SourceView::Scan(None)
}

/// Whether the index is to remember that the file was cropped. Files that were only copied or
/// skipped are not recorded, so a different choice about copying still applies to them in a later
/// run.
pub fn should_record(outcome: Outcome, source: &CropSource, indexed: bool) -> (record: bool)
    ensures
        record == is_recorded(outcome, source@, indexed),
{
    match source {
        CropSource::Scan(None) => false,
        CropSource::Scan(Some(_)) => indexed && outcome == Outcome::Processed,
        CropSource::Detect => indexed && outcome == Outcome::Processed,
    }
}

/// An upgraded table of videos has the column that tracks progress, keeps every other column in its
/// place, and is not changed by another upgrade; a table that had the column is not changed at all.
pub proof fn law_upgrade_adds_the_progress_column_once(columns: Seq<Seq<char>>)
    ensures
        upgraded(columns).contains(PROGRESS_COLUMN@),
        upgraded(columns).take(columns.len() as int) == columns,
        upgraded(columns).len() <= columns.len() + 1,
        forall|c: Seq<char>|
            c != PROGRESS_COLUMN@ ==> (#[trigger] upgraded(columns).contains(c)
                <==> columns.contains(c)),
        upgraded(upgraded(columns)) == upgraded(columns),
        columns.contains(PROGRESS_COLUMN@) ==> upgraded(columns) == columns,
{
    let after = upgraded(columns);
    assert(after.take(columns.len() as int) =~= columns);
    if !columns.contains(PROGRESS_COLUMN@) {
        assert(after[columns.len() as int] == PROGRESS_COLUMN@);
    }
    assert forall|c: Seq<char>| c != PROGRESS_COLUMN@ implies (#[trigger] after.contains(c)
        <==> columns.contains(c)) by {
        if columns.contains(c) {
            let i = choose|i: int| 0 <= i < columns.len() && columns[i] == c;
            assert(after[i] == c);
        }
        if after.contains(c) {
            let i = choose|i: int| 0 <= i < after.len() && after[i] == c;
            assert(columns[i] == c);
        }
    }
}

/// No video is marked in an index that has just been scanned or upgraded; all of its videos are
/// planned, in their order.
pub proof fn law_unmarked_index_is_planned_in_full(entries: Seq<EntryView>, threshold: u32)
    requires
        forall|i: int| 0 <= i < entries.len() ==> (#[trigger] entries[i]).cropped_at is None,
    ensures
        pending(entries) == entries,
        planned(entries, threshold).len() == entries.len(),
    decreases entries.len(),
{
    reveal(Seq::filter);
    if entries.len() > 0 {
        let rest = entries.drop_last();
        assert forall|i: int| 0 <= i < rest.len() implies (#[trigger] rest[i]).cropped_at
            is None by {
            assert(rest[i] == entries[i]);
        }
        law_unmarked_index_is_planned_in_full(rest, threshold);
        assert(entries == rest.push(entries.last()));
    }
}

/// The videos that are left to do are not marked as cropped.
pub proof fn lemma_pending_are_uncropped(entries: Seq<EntryView>)
    ensures
        pending(entries).len() <= entries.len(),
        forall|i: int|
            0 <= i < pending(entries).len() ==> (#[trigger] pending(entries)[i]).cropped_at is None,
    decreases entries.len(),
{
    reveal(Seq::filter);
    if entries.len() > 0 {
        lemma_pending_are_uncropped(entries.drop_last());
    }
}

/// The entry that a scan result leaves in the index.
pub open spec fn entry_of(row: RowView) -> EntryView {
    stored_entry(
        row.path,
        row.crop,
        row.width,
        row.height,
        needs_crop_number(row.needs_crop),
        None,
    )
}

/// A scan result that is added to an index without its path is found there: whatever the order in
/// which the entries are read, exactly one has the path, it says what the scan found, and all other
/// entries are those from before.
pub proof fn law_added_row_is_found(before: Seq<EntryView>, row: RowView, after: Seq<EntryView>)
    requires
        forall|i: int| 0 <= i < before.len() ==> (#[trigger] before[i]).path != row.path,
        after.to_multiset() == before.to_multiset().insert(entry_of(row)),
    ensures
        exists|i: int|
            {
                &&& 0 <= i < after.len()
                &&& #[trigger] after[i] == entry_of(row)
                &&& forall|j: int|
                    0 <= j < after.len() && j != i ==> (#[trigger] after[j]).path != row.path
                &&& after.remove(i).to_multiset() == before.to_multiset()
            },
{
    let entry = entry_of(row);
    after.to_multiset_ensures();
    before.to_multiset_ensures();
    assert(after.to_multiset().count(entry) > 0);
    assert(after.contains(entry));
    let i = choose|i: int| 0 <= i < after.len() && after[i] == entry;
    let others = after.remove(i);
    others.to_multiset_ensures();
    assert(others.to_multiset() == after.to_multiset().remove(entry));
    assert(others.to_multiset() =~= before.to_multiset());
    assert forall|j: int| 0 <= j < after.len() && j != i implies (#[trigger] after[j]).path
        != row.path by {
        let k = if j < i {
            j
        } else {
            j - 1
        };
        assert(others[k] == after[j]);
        assert(others.contains(after[j]));
        assert(before.to_multiset().count(after[j]) > 0);
        assert(before.contains(after[j]));
    }
    assert(after[i] == entry);
}

/// What is read back from the index of a row that a scan wrote is what the scan found; the video is
/// not marked as cropped.
pub proof fn law_written_rows_are_read_back(row: RowView)
    ensures
        entry_of(row) == (EntryView {
            path: row.path,
            crop: row.crop,
            width: row.width,
            height: row.height,
            needs_crop: row.needs_crop,
            cropped_at: None,
        }),
{
}

/// Each indexed video is either planned or was cropped before.
pub proof fn law_planned_and_cropped_add_up(entries: Seq<EntryView>, threshold: u32)
    ensures
        planned(entries, threshold).len() + cropped_already(entries) == entries.len(),
    decreases entries.len(),
{
    reveal(Seq::filter);
    if entries.len() > 0 {
        law_planned_and_cropped_add_up(entries.drop_last(), threshold);
    }
}

/// The index after the video at position `i` was marked as cropped.
pub open spec fn marked(entries: Seq<EntryView>, i: int, at: i64) -> Seq<EntryView> {
    entries.update(i, EntryView { cropped_at: Some(at), ..entries[i] })
}

/// Marking a video as cropped takes it, and nothing else, out of the work that is left: what was
/// planned before it and after it stays planned, in the same order.
pub proof fn law_cropped_videos_are_not_planned_again(
    entries: Seq<EntryView>,
    threshold: u32,
    i: int,
    at: i64,
)
    requires
        0 <= i < entries.len(),
    ensures
        planned(marked(entries, i, at), threshold) == planned(entries.take(i), threshold) + planned(
            entries.skip(i + 1),
            threshold,
        ),
        entries[i].cropped_at is None ==> planned(entries, threshold) == planned(
            entries.take(i),
            threshold,
        ) + seq![(entries[i].path, entry_source(entries[i], threshold))] + planned(
            entries.skip(i + 1),
            threshold,
        ),
{
    let done = EntryView { cropped_at: Some(at), ..entries[i] };
    lemma_planned_concat(entries.take(i), seq![done] + entries.skip(i + 1), threshold);
    lemma_planned_concat(seq![done], entries.skip(i + 1), threshold);
    lemma_planned_single(done, threshold);
    assert(marked(entries, i, at) == entries.take(i) + (seq![done] + entries.skip(i + 1)));
    lemma_planned_concat(entries.take(i), seq![entries[i]] + entries.skip(i + 1), threshold);
    lemma_planned_concat(seq![entries[i]], entries.skip(i + 1), threshold);
    lemma_planned_single(entries[i], threshold);
    assert(entries == entries.take(i) + (seq![entries[i]] + entries.skip(i + 1)));
    assert(planned(marked(entries, i, at), threshold) =~= planned(entries.take(i), threshold)
        + planned(entries.skip(i + 1), threshold));
    if entries[i].cropped_at is None {
        assert(planned(entries, threshold) =~= planned(entries.take(i), threshold) + seq![
            (entries[i].path, entry_source(entries[i], threshold)),
        ] + planned(entries.skip(i + 1), threshold));
    }
}

/// Planning distributes over two parts of an index.
proof fn lemma_planned_concat(a: Seq<EntryView>, b: Seq<EntryView>, threshold: u32)
    ensures
        planned(a + b, threshold) == planned(a, threshold) + planned(b, threshold),
    decreases b.len(),
{
    reveal(Seq::filter);
    if b.len() == 0 {
        assert(a + b == a);
        assert(planned(b, threshold) =~= Seq::empty());
        assert(planned(a + b, threshold) =~= planned(a, threshold) + planned(b, threshold));
    } else {
        lemma_planned_concat(a, b.drop_last(), threshold);
        assert((a + b).drop_last() == a + b.drop_last());
        assert(planned(a + b, threshold) =~= planned(a, threshold) + planned(b, threshold));
    }
}

/// One video alone is planned unless it is marked as cropped.
proof fn lemma_planned_single(entry: EntryView, threshold: u32)
    ensures
        planned(seq![entry], threshold) == (if entry.cropped_at is None {
            seq![(entry.path, entry_source(entry, threshold))]
        } else {
            Seq::empty()
        }),
{
    reveal(Seq::filter);
    let one = seq![entry];
    assert(one.drop_last() == Seq::<EntryView>::empty());
    assert(pending(Seq::<EntryView>::empty()) == Seq::<EntryView>::empty());
    if entry.cropped_at is None {
        assert(pending(one) == seq![entry]);
        assert(planned(one, threshold) =~= seq![(entry.path, entry_source(entry, threshold))]);
    } else {
        assert(pending(one) == Seq::<EntryView>::empty());
        assert(planned(one, threshold) =~= Seq::empty());
    }
}

/// Where every video is marked as cropped there is nothing to do, and the reason given is that.
pub proof fn law_finished_index_leaves_nothing_to_do(entries: Seq<EntryView>, threshold: u32)
    requires
        forall|i: int| 0 <= i < entries.len() ==> (#[trigger] entries[i]).cropped_at is Some,
    ensures
        planned(entries, threshold).len() == 0,
        cropped_already(entries) == entries.len(),
    decreases entries.len(),
{
    reveal(Seq::filter);
    law_planned_and_cropped_add_up(entries, threshold);
    if entries.len() > 0 {
        assert forall|i: int| 0 <= i < entries.len() - 1 implies (#[trigger]
        entries.drop_last()[i]).cropped_at is Some by {
            assert(entries[i].cropped_at is Some);
        }
        law_finished_index_leaves_nothing_to_do(entries.drop_last(), threshold);
    }
}

/// The index after the video at position `i` was processed with this outcome.
pub open spec fn index_after(
    entries: Seq<EntryView>,
    i: int,
    outcome: Outcome,
    threshold: u32,
    at: i64,
) -> Seq<EntryView> {
    if is_recorded(outcome, entry_source(entries[i], threshold), true) {
        marked(entries, i, at)
    } else {
        entries
    }
}

/// A later run continues where this one left off: a video that was cropped is not planned again,
/// and all others are. Failed and skipped videos stay planned, and so does one without bars, though
/// it may have been copied.
pub proof fn law_later_run_resumes(
    entries: Seq<EntryView>,
    i: int,
    outcome: Outcome,
    threshold: u32,
    at: i64,
)
    requires
        0 <= i < entries.len(),
        entries[i].cropped_at is None,
    ensures
        outcome != Outcome::Processed || entry_source(entries[i], threshold) == SourceView::Scan(
            None,
        ) ==> planned(index_after(entries, i, outcome, threshold, at), threshold) == planned(
            entries,
            threshold,
        ),
        outcome == Outcome::Processed && entry_source(entries[i], threshold) != SourceView::Scan(
            None,
        ) ==> planned(index_after(entries, i, outcome, threshold, at), threshold) == planned(
            entries.take(i),
            threshold,
        ) + planned(entries.skip(i + 1), threshold),
{
    law_cropped_videos_are_not_planned_again(entries, threshold, i, at);
}

/// The video was cropped in a run, and the index is to remember it. A video without an outcome was
/// missing, or the run was interrupted before it had its turn.
pub open spec fn is_finished(entry: EntryView, outcome: Option<Outcome>, threshold: u32) -> bool {
    outcome matches Some(o) && entry.cropped_at is None && is_recorded(
        o,
        entry_source(entry, threshold),
        true,
    )
}

/// The index after a run with these outcomes, one for each video.
pub open spec fn index_after_run(
    entries: Seq<EntryView>,
    outcomes: Seq<Option<Outcome>>,
    threshold: u32,
    at: i64,
) -> Seq<EntryView> {
    Seq::new(
        entries.len(),
        |i: int|
            if is_finished(entries[i], outcomes[i], threshold) {
                EntryView { cropped_at: Some(at), ..entries[i] }
            } else {
                entries[i]
            },
    )
}

/// The videos that a run with these outcomes did not crop, in the order of the index.
pub open spec fn unfinished(
    entries: Seq<EntryView>,
    outcomes: Seq<Option<Outcome>>,
    threshold: u32,
) -> Seq<EntryView>
    decreases entries.len(),
{
    if entries.len() == 0 {
        Seq::empty()
    } else {
        let before = unfinished(entries.drop_last(), outcomes.drop_last(), threshold);
        if is_finished(entries.last(), outcomes.last(), threshold) {
            before
        } else {
            before.push(entries.last())
        }
    }
}

/// Whatever came of a run, and wherever it was interrupted, a later run at any threshold takes up
/// exactly the videos that it did not crop, in the same order.
pub proof fn law_interrupted_run_is_resumed(
    entries: Seq<EntryView>,
    outcomes: Seq<Option<Outcome>>,
    threshold: u32,
    at: i64,
    later: u32,
)
    requires
        outcomes.len() == entries.len(),
    ensures
        planned(index_after_run(entries, outcomes, threshold, at), later) == planned(
            unfinished(entries, outcomes, threshold),
            later,
        ),
    decreases entries.len(),
{
    let after = index_after_run(entries, outcomes, threshold, at);
    let left = unfinished(entries, outcomes, threshold);
    if entries.len() == 0 {
        assert(after == left);
    } else {
        let rest = entries.drop_last();
        law_interrupted_run_is_resumed(rest, outcomes.drop_last(), threshold, at, later);
        let before = index_after_run(rest, outcomes.drop_last(), threshold, at);
        assert(after == before + seq![after.last()]) by {
            assert(after.drop_last() =~= before);
        }
        lemma_planned_concat(before, seq![after.last()], later);
        lemma_planned_single(after.last(), later);
        if !is_finished(entries.last(), outcomes.last(), threshold) {
            let shorter = unfinished(rest, outcomes.drop_last(), threshold);
            assert(left == shorter + seq![entries.last()]);
            lemma_planned_concat(shorter, seq![entries.last()], later);
        }
    }
}

/// The outcomes of the videos that are left to do, spread over the whole index: a video that was
/// cropped before has none.
pub open spec fn spread(entries: Seq<EntryView>, outcomes: Seq<Option<Outcome>>) -> Seq<
    Option<Outcome>,
>
    decreases entries.len(),
{
    if entries.len() == 0 {
        Seq::empty()
    } else if entries.last().cropped_at is None {
        spread(entries.drop_last(), outcomes.drop_last()).push(outcomes.last())
    } else {
        spread(entries.drop_last(), outcomes).push(None)
    }
}

/// Videos that were cropped before play no part in what is left to do after a run.
pub proof fn lemma_cropped_play_no_part(
    entries: Seq<EntryView>,
    outcomes: Seq<Option<Outcome>>,
    threshold: u32,
    at: i64,
    later: u32,
)
    requires
        outcomes.len() == pending(entries).len(),
    ensures
        spread(entries, outcomes).len() == entries.len(),
        planned(index_after_run(entries, spread(entries, outcomes), threshold, at), later)
            == planned(index_after_run(pending(entries), outcomes, threshold, at), later),
    decreases entries.len(),
{
    reveal(Seq::filter);
    let all = spread(entries, outcomes);
    let after = index_after_run(entries, all, threshold, at);
    if entries.len() == 0 {
        assert(after == index_after_run(pending(entries), outcomes, threshold, at));
    } else {
        let rest = entries.drop_last();
        let known = if entries.last().cropped_at is None {
            outcomes.drop_last()
        } else {
            outcomes
        };
        lemma_cropped_play_no_part(rest, known, threshold, at, later);
        let before = index_after_run(rest, spread(rest, known), threshold, at);
        assert(all.drop_last() == spread(rest, known));
        assert(after.drop_last() =~= before);
        assert(after == before + seq![after.last()]);
        lemma_planned_concat(before, seq![after.last()], later);
        lemma_planned_single(after.last(), later);
        if entries.last().cropped_at is None {
            let videos = pending(entries);
            let left = index_after_run(videos, outcomes, threshold, at);
            let shorter = index_after_run(pending(rest), known, threshold, at);
            assert(videos == pending(rest).push(entries.last()));
            assert(left.drop_last() =~= shorter);
            assert(left.last() == after.last());
            assert(left == shorter + seq![left.last()]);
            lemma_planned_concat(shorter, seq![left.last()], later);
        } else {
            assert(pending(entries) == pending(rest));
        }
    }
}

/// A higher threshold never crops a video that a lower one leaves alone, and a video that the scan
/// cleared is cropped at no threshold.
pub proof fn law_higher_threshold_crops_fewer_videos(entry: EntryView, low: u32, high: u32)
    requires
        low <= high,
    ensures
        entry_source(entry, low) == SourceView::Scan(None) ==> entry_source(entry, high)
            == SourceView::Scan(None),
        !entry.needs_crop ==> entry_source(entry, low) == SourceView::Scan(None),
{
}

/// The frame that is read back from the index is the frame that was detected, and a video of which
/// only one number is known has no frame.
pub proof fn law_indexed_frame_is_the_detected_one(
    path: Seq<char>,
    detection: CropDetection,
    threshold: u32,
    number: u32,
)
    ensures
        !(detection.failed && detection.crop is None) ==> ({
            let entry = entry_of(detected_row(path, detection, threshold));
            &&& frame_size(entry.width, entry.height) == detection.source_size
            &&& detection.source_size matches Some(size) ==> entry.width == Some(size.0)
                && entry.height == Some(size.1)
        }),
        frame_size(Some(number), None) is None,
        frame_size(None, Some(number)) is None,
        frame_size(None, None) is None,
{
}

/// A crop from the index is judged as a live detection would be: a video that the scan found to need
/// cropping is cropped at any later threshold exactly where the detection itself would be, with the
/// same crop; one that it cleared is not cropped.
pub proof fn law_index_judges_as_the_detection(
    path: Seq<char>,
    detection: CropDetection,
    threshold: u32,
    later: u32,
)
    requires
        !(detection.failed && detection.crop is None),
    ensures
        ({
            let entry = entry_of(detected_row(path, detection, threshold));
            entry_source(entry, later) == (if detection.bars(threshold) is Some {
                SourceView::Scan(detection.bars(later))
            } else {
                SourceView::Scan(None)
            })
        }),
{
}

/// An indexed video that needs cropping is cropped as recorded exactly where its crop trims more than
/// the threshold from at least one edge of its frame, or is larger than the frame.
pub proof fn law_indexed_crops_are_judged_at_every_edge(
    entry: EntryView,
    threshold: u32,
    width: u32,
    height: u32,
    x: u32,
    y: u32,
    size: (u32, u32),
)
    requires
        entry.needs_crop,
        entry.crop == Some(crop_text(width, height, x, y)),
        entry.width == Some(size.0),
        entry.height == Some(size.1),
    ensures
        entry_source(entry, threshold) == (if width <= size.0 && height <= size.1 && x <= threshold
            && size.0 - (x + width) <= threshold && y <= threshold && size.1 - (y + height)
            <= threshold {
            SourceView::Scan(None)
        } else {
            SourceView::Scan(Some(crop_text(width, height, x, y)))
        }),
{
    law_bars_at_any_edge_are_worth_removing(width, height, x, y, size, threshold);
}

/// A video that the scan cleared has no bars; one that needs a crop but has none recorded is detected
/// anew; a crop without a known frame is used as recorded.
pub proof fn law_incomplete_entries_are_still_cropped(entry: EntryView, threshold: u32)
    ensures
        !entry.needs_crop ==> entry_source(entry, threshold) == SourceView::Scan(None),
        entry.needs_crop && entry.crop is None ==> entry_source(entry, threshold)
            == SourceView::Detect,
        entry.needs_crop && (entry.width is None || entry.height is None) ==> (entry.crop
            matches Some(crop) ==> entry_source(entry, threshold) == SourceView::Scan(Some(crop))),
{
}

/// The columns of a row are taken over as they are; any number but zero stands for a need.
pub proof fn law_columns_are_taken_over(
    path: Seq<char>,
    crop: Option<Seq<char>>,
    width: Option<u32>,
    height: Option<u32>,
    needs_crop: int,
    cropped_at: Option<i64>,
)
    ensures
        ({
            let entry = stored_entry(path, crop, width, height, needs_crop, cropped_at);
            &&& entry.path == path && entry.crop == crop
            &&& entry.width == width && entry.height == height
            &&& entry.needs_crop <==> needs_crop != 0
            &&& entry.cropped_at == cropped_at
        }),
{
}

/// Another video raises the number of those that need cropping by one where it needs it, and the
/// number of those cropped before by one where it is marked.
pub proof fn law_each_entry_is_counted(entries: Seq<EntryView>, entry: EntryView)
    ensures
        needing_crop(Seq::empty()) == 0,
        cropped_already(Seq::empty()) == 0,
        needing_crop(entries.push(entry)) == needing_crop(entries) + (if entry.needs_crop {
            1nat
        } else {
            0nat
        }),
        cropped_already(entries.push(entry)) == cropped_already(entries) + (
        if entry.cropped_at is Some {
            1nat
        } else {
            0nat
        }),
{
    reveal(Seq::filter);
    assert(entries.push(entry).drop_last() == entries);
}

/// A video is recorded as cropped only from an index, only after success, and only where there was a
/// crop to apply, whether recorded or detected; then it always is.
pub proof fn law_success_with_a_crop_is_recorded(
    outcome: Outcome,
    source: SourceView,
    indexed: bool,
)
    ensures
        is_recorded(outcome, source, indexed) ==> indexed && outcome is Processed,
        source == SourceView::Scan(None) ==> !is_recorded(outcome, source, indexed),
        indexed && outcome is Processed && source is Detect ==> is_recorded(
            outcome,
            source,
            indexed,
        ),
        indexed && outcome is Processed ==> (source matches SourceView::Scan(Some(crop))
            ==> is_recorded(outcome, source, indexed)),
{
}

/// The reason for doing nothing is said in words.
pub proof fn law_reasons_are_said(reason: Idle)
    ensures
        reason is AllCropped ==> reason.text() == "All indexed file(s) have already been cropped"@,
        reason is NoVideos ==> reason.text() == "No video files found"@,
{
}

/// The views of entries and jobs hold what their fields hold.
pub proof fn law_index_views_hold_the_fields(
    entries: Seq<ScanEntry>,
    i: int,
    jobs: Seq<IndexedJob>,
    k: int,
)
    requires
        0 <= i < entries.len(),
        0 <= k < jobs.len(),
    ensures
        entry_views(entries).len() == entries.len(),
        entry_views(entries)[i] == entries[i]@,
        entries[i]@.path == entries[i].path@,
        entries[i].crop is None ==> entries[i]@.crop is None,
        entries[i].crop matches Some(value) ==> entries[i]@.crop == Some(value@),
        entries[i]@.width == entries[i].width,
        entries[i]@.height == entries[i].height,
        entries[i]@.needs_crop == entries[i].needs_crop,
        entries[i]@.cropped_at == entries[i].cropped_at,
        job_views(jobs).len() == jobs.len(),
        job_views(jobs)[k] == (jobs[k].path@, jobs[k].source@),
{
}

/// With the work that an index leaves to do, there is nothing to do exactly where every video is
/// marked as cropped: the reason is that there are no videos where the index is empty, and that all
/// were cropped before where it is not.
pub proof fn law_idleness_fits_the_index(entries: Seq<EntryView>, threshold: u32)
    ensures
        ({
            let reason = idle_for(planned(entries, threshold).len(), cropped_already(entries));
            &&& reason is None <==> cropped_already(entries) < entries.len()
            &&& reason == Some(Idle::NoVideos) <==> entries.len() == 0
            &&& reason == Some(Idle::AllCropped) <==> entries.len() > 0 && cropped_already(entries)
                == entries.len()
        }),
{
    law_planned_and_cropped_add_up(entries, threshold);
}

/// The numbers of an index are said in words, the number of all videos before that of those that need
/// cropping; a resumed run is announced only where a video was cropped before.
pub proof fn law_index_is_summed_up_in_words(total: nat, needs_crop: nat, already_cropped: nat)
    ensures
        indexed_text(total, needs_crop) == "Indexed "@ + decimal(total) + " video file(s), "@
            + decimal(needs_crop) + " need cropping"@,
        resuming_text(0) is None,
        already_cropped > 0 ==> resuming_text(already_cropped) == Some(
            "Resuming: "@ + decimal(already_cropped)
                + " file(s) already cropped and will be skipped"@,
        ),
{
}

/// What is left to do of two parts of an index is what is left of the one and then of the other; of
/// one video it is that video, exactly where it is not marked as cropped.
pub proof fn law_unmarked_videos_are_planned_in_order(
    first: Seq<EntryView>,
    second: Seq<EntryView>,
    entry: EntryView,
    threshold: u32,
)
    ensures
        planned(first + second, threshold) == planned(first, threshold) + planned(
            second,
            threshold,
        ),
        entry.cropped_at is None ==> planned(seq![entry], threshold) == seq![
            (entry.path, entry_source(entry, threshold)),
        ],
        entry.cropped_at is Some ==> planned(seq![entry], threshold).len() == 0,
{
    lemma_planned_concat(first, second, threshold);
    lemma_planned_single(entry, threshold);
}

} // verus!
