//! A crop run: the files are taken up one after the other, and every one of them is counted.
use vstd::prelude::*;

use crate::index::{
    entry_source,
    index_after_run,
    is_finished,
    is_recorded,
    law_interrupted_run_is_resumed,
    lemma_cropped_play_no_part,
    lemma_pending_are_uncropped,
    pending,
    planned,
    should_record,
    spread,
    unfinished,
    EntryView,
};
use crate::process::{CropSource, Outcome, SourceView};
use crate::text::{decimal, labelled, texts};

verus! {

/// How many files there are of each outcome.
#[derive(Clone, Copy, Debug, PartialEq, Eq, Structural)]
pub struct CropTally {
    pub processed: usize,
    pub skipped: usize,
    pub failed: usize,
}

/// The numbers of processed, skipped and failed files.
pub struct TallyView {
    pub processed: nat,
    pub skipped: nat,
    pub failed: nat,
}

impl View for CropTally {
    type V = TallyView;

    open spec fn view(&self) -> TallyView {
        TallyView {
            processed: self.processed as nat,
            skipped: self.skipped as nat,
            failed: self.failed as nat,
        }
    }
}

impl TallyView {
    /// The number of files.
    pub open spec fn total(self) -> nat {
        self.processed + self.skipped + self.failed
    }

    /// The tally after one more file.
    pub open spec fn with(self, outcome: Outcome) -> TallyView {
        match outcome {
            Outcome::Processed => TallyView { processed: self.processed + 1, ..self },
            Outcome::Skipped => TallyView { skipped: self.skipped + 1, ..self },
            Outcome::Failed => TallyView { failed: self.failed + 1, ..self },
        }
    }
}

/// What sums up a run over `total` files.
pub open spec fn summary_texts(tally: TallyView, total: nat) -> Seq<Seq<char>> {
    seq![
        "Processed: "@ + decimal(tally.processed),
        "Skipped:   "@ + decimal(tally.skipped),
        "Failed:    "@ + decimal(tally.failed),
        "Total:     "@ + decimal(total),
    ]
}

impl CropTally {
    /// An empty tally.
    pub fn new() -> (tally: CropTally)
        ensures
            tally@ == (TallyView { processed: 0, skipped: 0, failed: 0 }),
    {
        CropTally { processed: 0, skipped: 0, failed: 0 }
    }

    /// Counts one file.
    pub fn record(&mut self, outcome: Outcome)
        requires
            old(self)@.total() < usize::MAX,
        ensures
            final(self)@ == old(self)@.with(outcome),
    {
        match outcome {
            Outcome::Processed => {
                self.processed = self.processed + 1;
            },
            Outcome::Skipped => {
                self.skipped = self.skipped + 1;
            },
            Outcome::Failed => {
                self.failed = self.failed + 1;
            },
        }
    }

    /// The lines that sum up a run over `total` files.
    pub fn summary_lines(&self, total: usize) -> (lines: Vec<String>)
        ensures
            texts(lines@) == summary_texts(self@, total as nat),
    {
        let lines = vec![
            labelled("Processed: ", self.processed as u128),
            labelled("Skipped:   ", self.skipped as u128),
            labelled("Failed:    ", self.failed as u128),
            labelled("Total:     ", total as u128),
        ];
        assert(texts(lines@) =~= summary_texts(self@, total as nat));
        lines
    }
}

/// A file that waits to be processed.
pub struct QueuedFile {
    /// Where its crop comes from.
    pub source: CropSource,
    /// Whether it came from a scan database, which is to remember that it was cropped.
    pub indexed: bool,
}

/// The sources of the queued files, and whether they came from a scan database.
pub open spec fn queue_views(queue: Seq<QueuedFile>) -> Seq<(SourceView, bool)> {
    Seq::new(queue.len(), |i: int| (queue[i].source@, queue[i].indexed))
}

/// What is to be done next in a run.
#[derive(Clone, Copy, Debug, PartialEq, Eq, Structural)]
pub enum RunStep {
    /// Look whether the file at this position is still there.
    Locate(usize),
    /// Process the file at this position.
    Process(usize),
    /// Record in the scan database that the file at this position was cropped.
    Record(usize),
    /// Nothing: every file had its turn.
    Finished,
}

/// What came of it.
#[derive(Clone, Copy, Debug, PartialEq, Eq, Structural)]
pub enum RunEvent {
    /// The file is not there.
    Missing,
    /// The file is there.
    Found,
    /// The file was processed with this outcome.
    Processed(Outcome),
    /// Recording it was tried; a failure to record does not stop the run.
    Recorded,
}

/// A run over a queue of files.
pub struct RunView {
    pub queue: Seq<(SourceView, bool)>,
    pub step: RunStep,
    pub tally: TallyView,
}

/// What is to be done from the given position on.
pub open spec fn locate_from(position: nat, length: nat) -> RunStep {
    if position < length {
        RunStep::Locate(position as usize)
    } else {
        RunStep::Finished
    }
}

/// A run that has not begun.
pub open spec fn fresh_run(queue: Seq<(SourceView, bool)>) -> RunView {
    RunView {
        queue,
        step: locate_from(0, queue.len()),
        tally: TallyView { processed: 0, skipped: 0, failed: 0 },
    }
}

/// How many files have been counted when this is to be done next.
pub open spec fn files_counted(run: RunView) -> nat {
    match run.step {
        RunStep::Locate(i) => i as nat,
        RunStep::Process(i) => i as nat,
        RunStep::Record(i) => i as nat + 1,
        RunStep::Finished => run.queue.len(),
    }
}

/// The position lies in the queue, and every file before it has been counted once.
pub open spec fn is_consistent(run: RunView) -> bool {
    &&& run.queue.len() <= usize::MAX
    &&& match run.step {
        RunStep::Locate(i) => i < run.queue.len(),
        RunStep::Process(i) => i < run.queue.len(),
        RunStep::Record(i) => i < run.queue.len(),
        RunStep::Finished => true,
    }
    &&& run.tally.total() == files_counted(run)
}

/// The run after an event. A missing file counts as skipped. A file that was processed counts by its
/// outcome; where it was cropped and came from a scan database, that is recorded before the next
/// file has its turn. An event that answers nothing changes nothing.
pub open spec fn run_after(run: RunView, event: RunEvent) -> RunView {
    match (run.step, event) {
        (RunStep::Locate(i), RunEvent::Missing) => RunView {
            step: locate_from((i + 1) as nat, run.queue.len()),
            tally: run.tally.with(Outcome::Skipped),
            ..run
        },
        (RunStep::Locate(i), RunEvent::Found) => RunView { step: RunStep::Process(i), ..run },
        (RunStep::Process(i), RunEvent::Processed(outcome)) => RunView {
            step: if is_recorded(outcome, run.queue[i as int].0, run.queue[i as int].1) {
                RunStep::Record(i)
            } else {
                locate_from((i + 1) as nat, run.queue.len())
            },
            tally: run.tally.with(outcome),
            ..run
        },
        (RunStep::Record(i), RunEvent::Recorded) => RunView {
            step: locate_from((i + 1) as nat, run.queue.len()),
            ..run
        },
        _ => run,
    }
}

/// A run over a queue of files.
pub struct CropRun {
    queue: Vec<QueuedFile>,
    step: RunStep,
    tally: CropTally,
}

impl View for CropRun {
    type V = RunView;

    closed spec fn view(&self) -> RunView {
        RunView { queue: queue_views(self.queue@), step: self.step, tally: self.tally@ }
    }
}

impl CropRun {
    /// Every file before the current one has been counted once.
    pub open spec fn well_formed(&self) -> bool {
        is_consistent(self@)
    }

    /// A run that has not begun.
    pub fn new(queue: Vec<QueuedFile>) -> (run: CropRun)
        ensures
            run@ == fresh_run(queue_views(queue@)),
            run.well_formed(),
    {
        let step = if queue.len() > 0 {
            RunStep::Locate(0)
        } else {
            RunStep::Finished
        };
        CropRun { queue, step, tally: CropTally::new() }
    }

    /// What is to be done next.
    pub fn step(&self) -> (step: RunStep)
        ensures
            step == self@.step,
    {
        self.step
    }

    /// The counts so far.
    pub fn tally(&self) -> (tally: CropTally)
        ensures
            tally@ == self@.tally,
    {
        self.tally
    }

    /// What is to be done after the file at this position.
    fn after_position(&self, position: usize) -> (step: RunStep)
        requires
            position < self@.queue.len(),
        ensures
            step == locate_from((position + 1) as nat, self@.queue.len()),
    {
        let length: usize = self.queue.len();
        if position + 1 < length {
            RunStep::Locate(position + 1)
        } else {
            RunStep::Finished
        }
    }

    /// Takes in what came of what was to be done. An event that is no answer to it changes nothing.
    pub fn advance(&mut self, event: RunEvent)
        requires
            old(self).well_formed(),
        ensures
            final(self)@ == run_after(old(self)@, event),
            final(self).well_formed(),
    {
        assert(self@.queue.len() == self.queue@.len());
        match (self.step, event) {
            (RunStep::Locate(i), RunEvent::Missing) => {
                self.tally.record(Outcome::Skipped);
                self.step = self.after_position(i);
            },
            (RunStep::Locate(i), RunEvent::Found) => {
                self.step = RunStep::Process(i);
            },
            (RunStep::Process(i), RunEvent::Processed(outcome)) => {
                self.tally.record(outcome);
                self.step =
                if should_record(outcome, &self.queue[i].source, self.queue[i].indexed) {
                    RunStep::Record(i)
                } else {
                    self.after_position(i)
                };
            },
            (RunStep::Record(i), RunEvent::Recorded) => {
                self.step = self.after_position(i);
            },
            _ => {},
        }
    }
}

/// The run after a whole list of events.
pub open spec fn run_after_all(run: RunView, events: Seq<RunEvent>) -> RunView
    decreases events.len(),
{
    if events.len() == 0 {
        run
    } else {
        run_after(run_after_all(run, events.drop_last()), events.last())
    }
}

/// Whatever happens in a run, every file that had its turn is counted under exactly one outcome; at
/// the end that is every file of the queue.
pub proof fn law_every_file_is_counted_once(queue: Seq<(SourceView, bool)>, events: Seq<RunEvent>)
    requires
        queue.len() <= usize::MAX,
    ensures
        ({
            let run = run_after_all(fresh_run(queue), events);
            &&& run.queue == queue
            &&& is_consistent(run)
            &&& run.step is Finished ==> run.tally.total() == queue.len()
        }),
    decreases events.len(),
{
    if events.len() > 0 {
        law_every_file_is_counted_once(queue, events.drop_last());
    }
}

/// The event answers what was to be done.
pub open spec fn answers_step(step: RunStep, event: RunEvent) -> bool {
    match step {
        RunStep::Locate(_) => event is Missing || event is Found,
        RunStep::Process(_) => event is Processed,
        RunStep::Record(_) => event is Recorded,
        RunStep::Finished => false,
    }
}

/// How much is left to do in a run.
pub open spec fn work_left(run: RunView) -> int {
    match run.step {
        RunStep::Locate(i) => 3 * (run.queue.len() - i),
        RunStep::Process(i) => 3 * (run.queue.len() - i) - 1,
        RunStep::Record(i) => 3 * (run.queue.len() - i) - 2,
        RunStep::Finished => 0,
    }
}

/// Every answer brings a run closer to its end, and the run is at its end exactly where nothing is
/// left to do.
pub proof fn law_run_comes_to_its_end(run: RunView, event: RunEvent)
    requires
        is_consistent(run),
        answers_step(run.step, event),
    ensures
        0 <= work_left(run_after(run, event)) < work_left(run),
        work_left(run_after(run, event)) == 0 <==> run_after(run, event).step is Finished,
{
}

/// A file is recorded as cropped only right after it was processed successfully, and only if it came
/// from a scan database and had a crop to apply.
pub proof fn law_only_crops_are_recorded(run: RunView, event: RunEvent, position: usize)
    requires
        run_after(run, event).step == RunStep::Record(position),
        !(run.step is Record),
    ensures
        run.step == RunStep::Process(position),
        event == RunEvent::Processed(Outcome::Processed),
        run.queue[position as int].1,
        run.queue[position as int].0 != SourceView::Scan(None),
{
}

/// What came of each file of the queue in a run with these events. A file without an outcome was
/// missing, or has not been processed yet.
pub open spec fn outcomes_after(queue: Seq<(SourceView, bool)>, events: Seq<RunEvent>) -> Seq<
    Option<Outcome>,
>
    decreases events.len(),
{
    if events.len() == 0 {
        Seq::new(queue.len(), |i: int| None)
    } else {
        let before = outcomes_after(queue, events.drop_last());
        match (run_after_all(fresh_run(queue), events.drop_last()).step, events.last()) {
            (RunStep::Process(i), RunEvent::Processed(outcome)) => before.update(
                i as int,
                Some(outcome),
            ),
            _ => before,
        }
    }
}

/// At some point of a run with these events, the file at this position is to be recorded as cropped.
pub open spec fn comes_to_record(
    queue: Seq<(SourceView, bool)>,
    events: Seq<RunEvent>,
    position: usize,
) -> bool {
    exists|k: int|
        0 <= k <= events.len() && (#[trigger] run_after_all(fresh_run(queue), events.take(k))).step
            == RunStep::Record(position)
}

/// The file at this position has not been processed when this is to be done next.
spec fn is_ahead(step: RunStep, position: int) -> bool {
    match step {
        RunStep::Locate(i) => position >= i,
        RunStep::Process(i) => position >= i,
        RunStep::Record(i) => position > i,
        RunStep::Finished => false,
    }
}

/// One more event can only add the position that is to be recorded after it.
proof fn lemma_record_step(
    queue: Seq<(SourceView, bool)>,
    events: Seq<RunEvent>,
    position: usize,
)
    requires
        events.len() > 0,
    ensures
        comes_to_record(queue, events, position) <==> comes_to_record(
            queue,
            events.drop_last(),
            position,
        ) || run_after_all(fresh_run(queue), events).step == RunStep::Record(position),
{
    let rest = events.drop_last();
    assert(events.take(events.len() as int) == events);
    if comes_to_record(queue, rest, position) {
        let k = choose|k: int|
            0 <= k <= rest.len() && (#[trigger] run_after_all(
                fresh_run(queue),
                rest.take(k),
            )).step == RunStep::Record(position);
        assert(rest.take(k) == events.take(k));
    }
    if comes_to_record(queue, events, position) {
        let k = choose|k: int|
            0 <= k <= events.len() && (#[trigger] run_after_all(
                fresh_run(queue),
                events.take(k),
            )).step == RunStep::Record(position);
        if k < events.len() {
            assert(rest.take(k) == events.take(k));
        }
    }
}

/// Files that are still ahead have no outcome, and every other file is recorded exactly where its
/// outcome asks for it.
proof fn lemma_recorded_outcomes(queue: Seq<(SourceView, bool)>, events: Seq<RunEvent>)
    requires
        queue.len() <= usize::MAX,
    ensures
        outcomes_after(queue, events).len() == queue.len(),
        forall|j: int|
            0 <= j < queue.len() && is_ahead(run_after_all(fresh_run(queue), events).step, j)
                ==> (#[trigger] outcomes_after(queue, events)[j]) is None,
        forall|j: usize|
            j < queue.len() ==> (#[trigger] comes_to_record(queue, events, j)
                <==> (outcomes_after(queue, events)[j as int] matches Some(o) && is_recorded(
                o,
                queue[j as int].0,
                queue[j as int].1,
            ))),
    decreases events.len(),
{
    let run = run_after_all(fresh_run(queue), events);
    let after = outcomes_after(queue, events);
    if events.len() == 0 {
        assert forall|j: usize| j < queue.len() implies !(#[trigger] comes_to_record(
            queue,
            events,
            j,
        )) by {
            assert(forall|k: int| 0 <= k <= events.len() ==> events.take(k) == events);
        }
    } else {
        let rest = events.drop_last();
        let before = run_after_all(fresh_run(queue), rest);
        lemma_recorded_outcomes(queue, rest);
        law_every_file_is_counted_once(queue, rest);
        assert forall|j: usize| j < queue.len() implies (#[trigger] comes_to_record(
            queue,
            events,
            j,
        ) <==> (after[j as int] matches Some(o) && is_recorded(
            o,
            queue[j as int].0,
            queue[j as int].1,
        ))) by {
            lemma_record_step(queue, events, j);
            assert(comes_to_record(queue, rest, j) <==> (outcomes_after(
                queue,
                rest,
            )[j as int] matches Some(o) && is_recorded(
                o,
                queue[j as int].0,
                queue[j as int].1,
            )));
            if run.step == RunStep::Record(j) && before.step == RunStep::Record(j) {
                assert(rest.take(rest.len() as int) == rest);
                assert(comes_to_record(queue, rest, j));
            }
        }
    }
}

/// In every run, finished or interrupted, the files recorded as cropped are exactly those that came
/// from a scan database, were processed successfully and had a crop to apply.
pub proof fn law_recorded_files_are_the_cropped_ones(
    queue: Seq<(SourceView, bool)>,
    events: Seq<RunEvent>,
    position: usize,
)
    requires
        position < queue.len() <= usize::MAX,
    ensures
        comes_to_record(queue, events, position) <==> (outcomes_after(
            queue,
            events,
        )[position as int] matches Some(outcome) && is_recorded(
            outcome,
            queue[position as int].0,
            queue[position as int].1,
        )),
{
    lemma_recorded_outcomes(queue, events);
}

/// The queue of a run over the work that an index leaves to do.
pub open spec fn indexed_queue(entries: Seq<EntryView>, threshold: u32) -> Seq<(SourceView, bool)> {
    planned(entries, threshold).map_values(|job: (Seq<char>, SourceView)| (job.1, true))
}

/// A run over the videos that an index leaves to do, finished or interrupted, records a video exactly
/// where it was cropped; with those videos marked in the index, a later run at any threshold takes up
/// exactly the others, in the same order.
pub proof fn law_run_over_an_index_is_resumed(
    entries: Seq<EntryView>,
    threshold: u32,
    events: Seq<RunEvent>,
    at: i64,
    later: u32,
)
    requires
        entries.len() <= usize::MAX,
    ensures
        ({
            let queue = indexed_queue(entries, threshold);
            let videos = pending(entries);
            let outcomes = outcomes_after(queue, events);
            &&& queue.len() == videos.len() && outcomes.len() == videos.len()
            &&& forall|i: usize|
                i < videos.len() ==> (#[trigger] comes_to_record(queue, events, i) <==> is_finished(
                    videos[i as int],
                    outcomes[i as int],
                    threshold,
                ))
            &&& planned(
                index_after_run(entries, spread(entries, outcomes), threshold, at),
                later,
            ) == planned(unfinished(videos, outcomes, threshold), later)
        }),
{
    let queue = indexed_queue(entries, threshold);
    let videos = pending(entries);
    let outcomes = outcomes_after(queue, events);
    lemma_pending_are_uncropped(entries);
    lemma_recorded_outcomes(queue, events);
    assert forall|i: usize| i < videos.len() implies (#[trigger] comes_to_record(queue, events, i)
        <==> is_finished(videos[i as int], outcomes[i as int], threshold)) by {
        assert(videos[i as int].cropped_at is None);
        assert(queue[i as int] == (entry_source(videos[i as int], threshold), true));
    }
    lemma_cropped_play_no_part(entries, outcomes, threshold, at, later);
    law_interrupted_run_is_resumed(videos, outcomes, threshold, at, later);
}

/// A file that is no longer there is counted as skipped, and the run goes on.
pub proof fn law_missing_files_are_skipped(run: RunView, position: usize)
    requires
        run.step == RunStep::Locate(position),
    ensures
        run_after(run, RunEvent::Missing).tally == run.tally.with(Outcome::Skipped),
        run_after(run, RunEvent::Missing).step == locate_from(
            (position + 1) as nat,
            run.queue.len(),
        ),
{
}

/// A tally counts each outcome under its own name, and its total is the sum.
pub proof fn law_outcomes_are_counted_under_their_names(tally: TallyView, outcome: Outcome)
    ensures
        tally.total() == tally.processed + tally.skipped + tally.failed,
        tally.with(outcome).processed == tally.processed + (if outcome is Processed {
            1nat
        } else {
            0nat
        }),
        tally.with(outcome).skipped == tally.skipped + (if outcome is Skipped {
            1nat
        } else {
            0nat
        }),
        tally.with(outcome).failed == tally.failed + (if outcome is Failed {
            1nat
        } else {
            0nat
        }),
{
}

/// How many files were missing in a run with these events.
pub open spec fn missing_after(queue: Seq<(SourceView, bool)>, events: Seq<RunEvent>) -> nat
    decreases events.len(),
{
    if events.len() == 0 {
        0
    } else {
        let before = missing_after(queue, events.drop_last());
        if run_after_all(fresh_run(queue), events.drop_last()).step is Locate && events.last()
            is Missing {
            before + 1
        } else {
            before
        }
    }
}

/// Changing one item of a list changes the number of those with a property by that item alone.
proof fn lemma_count_after_update<A>(items: Seq<A>, i: int, item: A, holds: spec_fn(A) -> bool)
    requires
        0 <= i < items.len(),
    ensures
        items.update(i, item).filter(holds).len() + (if holds(items[i]) {
            1int
        } else {
            0int
        }) == items.filter(holds).len() + (if holds(item) {
            1int
        } else {
            0int
        }),
    decreases items.len(),
{
    reveal(Seq::filter);
    let changed = items.update(i, item);
    if i == items.len() - 1 {
        assert(changed.drop_last() == items.drop_last());
    } else {
        lemma_count_after_update(items.drop_last(), i, item, holds);
        assert(changed.drop_last() == items.drop_last().update(i, item));
        assert(changed.last() == items.last());
    }
}

/// No item of a list has a property that none of its items has.
proof fn lemma_none_counted<A>(items: Seq<A>, holds: spec_fn(A) -> bool)
    requires
        forall|i: int| 0 <= i < items.len() ==> !holds(#[trigger] items[i]),
    ensures
        items.filter(holds).len() == 0,
    decreases items.len(),
{
    reveal(Seq::filter);
    if items.len() > 0 {
        assert forall|i: int| 0 <= i < items.len() - 1 implies !holds(
            #[trigger] items.drop_last()[i],
        ) by {
            assert(!holds(items[i]));
        }
        lemma_none_counted(items.drop_last(), holds);
        assert(!holds(items[items.len() - 1]));
    }
}

/// Every file is without an outcome or has one of three.
proof fn lemma_outcomes_add_up(outcomes: Seq<Option<Outcome>>)
    ensures
        outcomes.filter(|o: Option<Outcome>| o == Some(Outcome::Processed)).len() + outcomes.filter(
            |o: Option<Outcome>| o == Some(Outcome::Skipped),
        ).len() + outcomes.filter(|o: Option<Outcome>| o == Some(Outcome::Failed)).len()
            + outcomes.filter(|o: Option<Outcome>| o is None).len() == outcomes.len(),
    decreases outcomes.len(),
{
    reveal(Seq::filter);
    if outcomes.len() > 0 {
        lemma_outcomes_add_up(outcomes.drop_last());
        let last = outcomes.last();
        assert(last is None || last == Some(Outcome::Processed) || last == Some(Outcome::Skipped)
            || last == Some(Outcome::Failed)) by {
            match last {
                Some(Outcome::Processed) | Some(Outcome::Skipped) | Some(Outcome::Failed) => {},
                None => {},
            }
        }
    }
}

/// In every run, finished or interrupted, the tally agrees with what came of the files: those that
/// were processed, and those that failed, are as many as ended so; those that were skipped are as
/// many as ended so, and those that were missing. At the end the missing files are exactly those
/// without an outcome.
pub proof fn law_tally_agrees_with_the_outcomes(
    queue: Seq<(SourceView, bool)>,
    events: Seq<RunEvent>,
)
    requires
        queue.len() <= usize::MAX,
    ensures
        ({
            let run = run_after_all(fresh_run(queue), events);
            let outcomes = outcomes_after(queue, events);
            &&& run.tally.processed == outcomes.filter(
                |o: Option<Outcome>| o == Some(Outcome::Processed),
            ).len()
            &&& run.tally.failed == outcomes.filter(
                |o: Option<Outcome>| o == Some(Outcome::Failed),
            ).len()
            &&& run.tally.skipped == outcomes.filter(
                |o: Option<Outcome>| o == Some(Outcome::Skipped),
            ).len() + missing_after(queue, events)
            &&& run.step is Finished ==> missing_after(queue, events) == outcomes.filter(
                |o: Option<Outcome>| o is None,
            ).len()
        }),
    decreases events.len(),
{
    let run = run_after_all(fresh_run(queue), events);
    let outcomes = outcomes_after(queue, events);
    let processed = |o: Option<Outcome>| o == Some(Outcome::Processed);
    let skipped = |o: Option<Outcome>| o == Some(Outcome::Skipped);
    let failed = |o: Option<Outcome>| o == Some(Outcome::Failed);
    if events.len() == 0 {
        lemma_none_counted(outcomes, processed);
        lemma_none_counted(outcomes, skipped);
        lemma_none_counted(outcomes, failed);
    } else {
        let rest = events.drop_last();
        law_tally_agrees_with_the_outcomes(queue, rest);
        lemma_recorded_outcomes(queue, rest);
        law_every_file_is_counted_once(queue, rest);
        let before = run_after_all(fresh_run(queue), rest);
        let known = outcomes_after(queue, rest);
        match (before.step, events.last()) {
            (RunStep::Process(i), RunEvent::Processed(outcome)) => {
                assert(known[i as int] is None);
                lemma_count_after_update(known, i as int, Some(outcome), processed);
                lemma_count_after_update(known, i as int, Some(outcome), skipped);
                lemma_count_after_update(known, i as int, Some(outcome), failed);
            },
            _ => {},
        }
    }
    law_every_file_is_counted_once(queue, events);
    lemma_recorded_outcomes(queue, events);
    lemma_outcomes_add_up(outcomes);
}

/// The files have their turn one after the other: a missing file, a processed one and a recorded one
/// each hand on to the next position, or end the run behind the last. A file that is there is
/// processed.
pub proof fn law_files_have_their_turn_in_order(run: RunView, event: RunEvent, position: usize)
    requires
        position < run.queue.len() <= usize::MAX,
    ensures
        ({
            let after = run_after(run, event).step;
            let over = (event is Missing && run.step == RunStep::Locate(position)) || (event
                is Recorded && run.step == RunStep::Record(position)) || (run.step
                == RunStep::Process(position) && event is Processed && !(after is Record));
            &&& over && position + 1 < run.queue.len() ==> after == RunStep::Locate(
                (position + 1) as usize,
            )
            &&& over && position + 1 == run.queue.len() ==> after is Finished
            &&& event is Found && run.step == RunStep::Locate(position) ==> after
                == RunStep::Process(position)
            &&& fresh_run(run.queue).step == RunStep::Locate(0)
            &&& run_after(run, event).queue == run.queue
            &&& !answers_step(run.step, event) ==> run_after(run, event) == run
        }),
{
}

/// The queue and the tally are seen as they are.
pub proof fn law_queue_views_hold_the_fields(queue: Seq<QueuedFile>, i: int, tally: CropTally)
    requires
        0 <= i < queue.len(),
    ensures
        queue_views(queue).len() == queue.len(),
        queue_views(queue)[i] == (queue[i].source@, queue[i].indexed),
        tally@.processed == tally.processed,
        tally@.skipped == tally.skipped,
        tally@.failed == tally.failed,
{
}

/// The summary names each count of the tally by its own word, and the number of all files last.
pub proof fn law_summary_names_each_count(tally: TallyView, total: nat)
    ensures
        summary_texts(tally, total).len() == 4,
        summary_texts(tally, total)[0] == "Processed: "@ + decimal(tally.processed),
        summary_texts(tally, total)[1] == "Skipped:   "@ + decimal(tally.skipped),
        summary_texts(tally, total)[2] == "Failed:    "@ + decimal(tally.failed),
        summary_texts(tally, total)[3] == "Total:     "@ + decimal(total),
{
}

} // verus!
