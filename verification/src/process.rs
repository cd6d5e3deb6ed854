//! Processing one video: from where its crop comes to what becomes of the file.
use vstd::prelude::*;
use vstd::string::*;

use crate::crop::crop_text;
use crate::detect::{law_bars_at_any_edge_are_worth_removing, CropDetection};
use crate::text::{copied_text, text_of};

verus! {

/// What became of a file.
#[derive(Clone, Copy, Debug, PartialEq, Eq, Structural)]
pub enum Outcome {
    Processed,
    Skipped,
    Failed,
}

/// Where encoded output goes: a mirrored output directory, or in-place replacement of the original
/// file.
pub enum OutputMode {
    Mirror(String),
    InPlace,
}

impl OutputMode {
    /// What is said about where the output goes.
    pub open spec fn target(&self) -> Seq<char> {
        match self {
            OutputMode::Mirror(dir) => "Output: "@ + dir@,
            OutputMode::InPlace => "Mode:   in-place (originals are overwritten)"@,
        }
    }

    /// The line that says where the output goes.
    pub fn target_line(&self) -> (line: String)
        ensures
            line@ == self.target(),
    {
        match self {
            OutputMode::Mirror(dir) => {
                let mut line = "Output: ".to_owned();
                line.append(dir.as_str());
                line
            },
            OutputMode::InPlace => "Mode:   in-place (originals are overwritten)".to_owned(),
        }
    }
}

/// Where a file's crop value comes from: a live cropdetect run, or a previous scan (`Some(crop)` =
/// crop this value, `None` = scan found no bars).
pub enum CropSource {
    Detect,
    Scan(Option<String>),
}

/// The source of a crop value, as a value of its own.
pub enum SourceView {
    Detect,
    Scan(Option<Seq<char>>),
}

impl View for CropSource {
    type V = SourceView;

    open spec fn view(&self) -> SourceView {
        match self {
            CropSource::Detect => SourceView::Detect,
            CropSource::Scan(crop) => SourceView::Scan(text_of(*crop)),
        }
    }
}

impl Clone for CropSource {
    fn clone(&self) -> (copy: CropSource)
        ensures
            copy@ == self@,
    {
        match self {
            CropSource::Detect => CropSource::Detect,
            CropSource::Scan(crop) => CropSource::Scan(copied_text(crop)),
        }
    }
}

/// How the processing of a file ended.
#[derive(Clone, Copy, Debug, PartialEq, Eq, Structural)]
pub enum Verdict {
    /// The directory of the output file could not be created.
    DirectoryFailed,
    /// The output file was there already.
    OutputExists,
    /// The detection process could not be run to its end.
    DetectionError,
    /// The detection process failed without a result.
    DetectionFailed,
    /// There are no bars, and the file stays as it is.
    NothingToDo,
    /// There are no bars, and files without bars are not copied.
    NotCopied,
    /// There are no bars, and the file was copied.
    Copied,
    /// The file could not be copied.
    CopyFailed,
    /// The cropped video was written to the output directory.
    Encoded,
    /// The cropped video took the place of the original.
    Replaced,
    /// The cropped video could not take the place of the original.
    ReplaceFailed,
    /// The encoding process failed.
    EncodeRejected,
    /// The encoding process could not be run to its end.
    EncodeError,
}

impl Verdict {
    /// What became of the file.
    pub open spec fn result(self) -> Outcome {
        match self {
            Verdict::Copied | Verdict::Encoded | Verdict::Replaced => Outcome::Processed,
            Verdict::OutputExists | Verdict::NothingToDo | Verdict::NotCopied => Outcome::Skipped,
            _ => Outcome::Failed,
        }
    }

    /// The encoded file is of no use and goes away.
    pub open spec fn discards(self) -> bool {
        self == Verdict::EncodeRejected || self == Verdict::EncodeError || self
            == Verdict::ReplaceFailed
    }

    /// What became of the file.
    pub fn outcome(self) -> (outcome: Outcome)
        ensures
            outcome == self.result(),
    {
        match self {
            Verdict::Copied | Verdict::Encoded | Verdict::Replaced => Outcome::Processed,
            Verdict::OutputExists | Verdict::NothingToDo | Verdict::NotCopied => Outcome::Skipped,
            _ => Outcome::Failed,
        }
    }

    /// Whether the encoded file is to be removed.
    pub fn discards_output(self) -> (discarded: bool)
        ensures
            discarded == self.discards(),
    {
        self == Verdict::EncodeRejected || self == Verdict::EncodeError || self
            == Verdict::ReplaceFailed
    }

    /// What is said at the end about a file, a directory or an error.
    pub open spec fn text(self, subject: Seq<char>, detail: Seq<char>) -> Seq<char> {
        match self {
            Verdict::DirectoryFailed => "Failed to create directory "@ + subject + ": "@ + detail,
            Verdict::OutputExists => "SKIPPED: Output file already exists"@,
            Verdict::DetectionError => detail,
            Verdict::DetectionFailed => "FAILED: FFmpeg returned an error during crop detection"@,
            Verdict::NothingToDo => "No black bars detected - nothing to do, file left as is"@,
            Verdict::NotCopied =>
                "No black bars detected - skipping (use --copy-uncropped to copy unchanged files)"@,
            Verdict::Copied => "SUCCESS: Copied without changes"@,
            Verdict::CopyFailed => "Failed to copy file: "@ + detail,
            Verdict::Encoded => "SUCCESS: "@ + subject,
            Verdict::Replaced => "SUCCESS: "@ + subject + " (original replaced)"@,
            Verdict::ReplaceFailed => "Failed to replace original "@ + subject + ": "@ + detail,
            Verdict::EncodeRejected => "FAILED: FFmpeg returned an error"@,
            Verdict::EncodeError => detail,
        }
    }

    /// The closing message: `subject` names the file or directory, `detail` the error.
    pub fn message(self, subject: &str, detail: &str) -> (message: String)
        ensures
            message@ == self.text(subject@, detail@),
    {
        match self {
            Verdict::DirectoryFailed => {
                let mut message = "Failed to create directory ".to_owned();
                message.append(subject);
                message.append(": ");
                message.append(detail);
                message
            },
            Verdict::OutputExists => "SKIPPED: Output file already exists".to_owned(),
            Verdict::DetectionError => detail.to_owned(),
            Verdict::DetectionFailed =>
                "FAILED: FFmpeg returned an error during crop detection".to_owned(),
            Verdict::NothingToDo =>
                "No black bars detected - nothing to do, file left as is".to_owned(),
            Verdict::NotCopied =>
                "No black bars detected - skipping (use --copy-uncropped to copy unchanged files)".to_owned(),
            Verdict::Copied => "SUCCESS: Copied without changes".to_owned(),
            Verdict::CopyFailed => {
                let mut message = "Failed to copy file: ".to_owned();
                message.append(detail);
                message
            },
            Verdict::Encoded => {
                let mut message = "SUCCESS: ".to_owned();
                message.append(subject);
                message
            },
            Verdict::Replaced => {
                let mut message = "SUCCESS: ".to_owned();
                message.append(subject);
                message.append(" (original replaced)");
                message
            },
            Verdict::ReplaceFailed => {
                let mut message = "Failed to replace original ".to_owned();
                message.append(subject);
                message.append(": ");
                message.append(detail);
                message
            },
            Verdict::EncodeRejected => "FAILED: FFmpeg returned an error".to_owned(),
            Verdict::EncodeError => detail.to_owned(),
        }
    }
}

/// What is to be done next for a file.
pub enum Stage {
    /// Create the directory of the output file, if it is missing.
    PrepareDirectory,
    /// Look whether the output file is there already.
    CheckOutput,
    /// Run the crop detection.
    Detect,
    /// Copy the file to the output unchanged.
    Copy,
    /// Encode the file to the output with this crop filter.
    Encode(String),
    /// Put the encoded file in the place of the original.
    Replace,
    /// Nothing.
    Done(Verdict),
}

/// What is to be done next for a file, as a value of its own.
pub enum StageView {
    PrepareDirectory,
    CheckOutput,
    Detect,
    Copy,
    Encode(Seq<char>),
    Replace,
    Done(Verdict),
}

impl View for Stage {
    type V = StageView;

    open spec fn view(&self) -> StageView {
        match self {
            Stage::PrepareDirectory => StageView::PrepareDirectory,
            Stage::CheckOutput => StageView::CheckOutput,
            Stage::Detect => StageView::Detect,
            Stage::Copy => StageView::Copy,
            Stage::Encode(filter) => StageView::Encode(filter@),
            Stage::Replace => StageView::Replace,
            Stage::Done(verdict) => StageView::Done(*verdict),
        }
    }
}

/// What came of doing it.
pub enum Event {
    /// The directory is there.
    DirectoryReady,
    /// The directory could not be created.
    DirectoryFailed,
    /// The output file is there already.
    OutputPresent,
    /// The output file is not there.
    OutputAbsent,
    /// The detection ran to its end.
    Detected(CropDetection),
    /// The detection could not be run to its end.
    DetectionError,
    /// The file was copied.
    Copied,
    /// The file could not be copied.
    CopyFailed,
    /// The encoding succeeded.
    Encoded,
    /// The encoding process failed.
    EncodeRejected,
    /// The encoding could not be run to its end.
    EncodeError,
    /// The original was replaced.
    Replaced,
    /// The original could not be replaced.
    ReplaceFailed,
}

/// A file to process: the rules that hold for it, and what is to be done next.
pub struct FileTask {
    /// The original is to be replaced.
    in_place: bool,
    /// Files without bars are to be copied.
    copy_uncropped: bool,
    /// Crops that trim at most this many pixels from every edge are ignored.
    threshold: u32,
    /// Where the crop comes from.
    source: CropSource,
    /// What is to be done next.
    stage: Stage,
}

/// A file to process, as a value of its own.
pub struct TaskView {
    pub in_place: bool,
    pub copy_uncropped: bool,
    pub threshold: u32,
    pub source: SourceView,
    pub stage: StageView,
}

/// The ffmpeg filter that applies a crop value.
pub open spec fn filter_text(crop: Seq<char>) -> Seq<char> {
    "crop="@ + crop
}

/// What is to be done with a file once its crop is known.
pub open spec fn stage_for_crop(
    in_place: bool,
    copy_uncropped: bool,
    crop: Option<Seq<char>>,
) -> StageView {
    match crop {
        Some(value) => StageView::Encode(filter_text(value)),
        None => if in_place {
            StageView::Done(Verdict::NothingToDo)
        } else if !copy_uncropped {
            StageView::Done(Verdict::NotCopied)
        } else {
            StageView::Copy
        },
    }
}

/// What is to be done with a file once its output is known to be free.
pub open spec fn stage_for_source(
    in_place: bool,
    copy_uncropped: bool,
    source: SourceView,
) -> StageView {
    match source {
        SourceView::Scan(crop) => stage_for_crop(in_place, copy_uncropped, crop),
        SourceView::Detect => StageView::Detect,
    }
}

/// What is to be done with a file first.
pub open spec fn first_stage(in_place: bool, copy_uncropped: bool, source: SourceView) -> StageView {
    if in_place {
        stage_for_source(in_place, copy_uncropped, source)
    } else {
        StageView::PrepareDirectory
    }
}

/// The event answers what was to be done.
pub open spec fn answers(stage: StageView, event: Event) -> bool {
    match stage {
        StageView::PrepareDirectory => event is DirectoryReady || event is DirectoryFailed,
        StageView::CheckOutput => event is OutputPresent || event is OutputAbsent,
        StageView::Detect => event is Detected || event is DetectionError,
        StageView::Copy => event is Copied || event is CopyFailed,
        StageView::Encode(_) => event is Encoded || event is EncodeRejected || event is EncodeError,
        StageView::Replace => event is Replaced || event is ReplaceFailed,
        StageView::Done(_) => false,
    }
}

/// What is to be done after an event; an event that answers nothing changes nothing.
pub open spec fn next_stage(task: TaskView, event: Event) -> StageView {
    if !answers(task.stage, event) {
        task.stage
    } else {
        match event {
            Event::DirectoryReady => StageView::CheckOutput,
            Event::DirectoryFailed => StageView::Done(Verdict::DirectoryFailed),
            Event::OutputPresent => StageView::Done(Verdict::OutputExists),
            Event::OutputAbsent => stage_for_source(
                task.in_place,
                task.copy_uncropped,
                task.source,
            ),
            Event::Detected(detection) => if detection.came_to_nothing() {
                StageView::Done(Verdict::DetectionFailed)
            } else {
                stage_for_crop(
                    task.in_place,
                    task.copy_uncropped,
                    detection.bars(task.threshold),
                )
            },
            Event::DetectionError => StageView::Done(Verdict::DetectionError),
            Event::Copied => StageView::Done(Verdict::Copied),
            Event::CopyFailed => StageView::Done(Verdict::CopyFailed),
            Event::Encoded => if task.in_place {
                StageView::Replace
            } else {
                StageView::Done(Verdict::Encoded)
            },
            Event::EncodeRejected => StageView::Done(Verdict::EncodeRejected),
            Event::EncodeError => StageView::Done(Verdict::EncodeError),
            Event::Replaced => StageView::Done(Verdict::Replaced),
            Event::ReplaceFailed => StageView::Done(Verdict::ReplaceFailed),
        }
    }
}

/// The file to process after an event.
pub open spec fn advanced(task: TaskView, event: Event) -> TaskView {
    TaskView { stage: next_stage(task, event), ..task }
}

/// The ffmpeg filter that applies a crop value.
pub fn crop_filter(crop: &str) -> (filter: String)
    ensures
        filter@ == filter_text(crop@),
{
    let mut filter = "crop=".to_owned();
    filter.append(crop);
    filter
}

/// What is to be done with a file once its crop is known.
fn choose_for_crop(in_place: bool, copy_uncropped: bool, crop: &Option<String>) -> (stage: Stage)
    ensures
        stage@ == stage_for_crop(in_place, copy_uncropped, text_of(*crop)),
{
    match crop {
        Some(value) => Stage::Encode(crop_filter(value.as_str())),
        None => if in_place {
            Stage::Done(Verdict::NothingToDo)
        } else if !copy_uncropped {
            Stage::Done(Verdict::NotCopied)
        } else {
            Stage::Copy
        },
    }
}

/// What is to be done with a file once its output is known to be free.
fn choose_for_source(in_place: bool, copy_uncropped: bool, source: &CropSource) -> (stage: Stage)
    ensures
        stage@ == stage_for_source(in_place, copy_uncropped, source@),
{
    match source {
        CropSource::Scan(crop) => choose_for_crop(in_place, copy_uncropped, crop),
        CropSource::Detect => Stage::Detect,
    }
}

/// The tone in which a notice is shown.
#[derive(Clone, Copy, Debug, PartialEq, Eq, Structural)]
pub enum Tone {
    Cyan,
    Green,
    Yellow,
}

/// The notices and their tones.
pub open spec fn notice_views(notices: Seq<(Tone, String)>) -> Seq<(Tone, Seq<char>)> {
    Seq::new(notices.len(), |i: int| (notices[i].0, notices[i].1@))
}

/// What is said before something is done for a file.
pub open spec fn announcement(task: TaskView) -> Seq<(Tone, Seq<char>)> {
    match task.stage {
        StageView::Detect => seq![(Tone::Cyan, "Detecting black bars..."@)],
        StageView::Copy => seq![
            (Tone::Yellow, "No black bars detected"@),
            (Tone::Cyan, "Copying file without modification..."@),
        ],
        StageView::Encode(filter) => {
            let encoding = seq![
                (Tone::Green, "Detected: "@ + filter),
                (Tone::Cyan, "Encoding with crop filter..."@),
            ];
            match task.source {
                SourceView::Scan(Some(crop)) => seq![
                    (Tone::Green, "Using scan result: crop="@ + crop),
                ] + encoding,
                _ => encoding,
            }
        },
        _ => Seq::empty(),
    }
}

impl View for FileTask {
    type V = TaskView;

    closed spec fn view(&self) -> TaskView {
        TaskView {
            in_place: self.in_place,
            copy_uncropped: self.copy_uncropped,
            threshold: self.threshold,
            source: self.source@,
            stage: self.stage@,
        }
    }
}

impl FileTask {
    /// A file of which nothing has been done yet.
    pub fn new(in_place: bool, copy_uncropped: bool, threshold: u32, source: CropSource) -> (task:
        FileTask)
        ensures
            task@ == (TaskView {
                in_place,
                copy_uncropped,
                threshold,
                source: source@,
                stage: first_stage(in_place, copy_uncropped, source@),
            }),
    {
        let stage = if in_place {
            choose_for_source(in_place, copy_uncropped, &source)
        } else {
            Stage::PrepareDirectory
        };
        FileTask { in_place, copy_uncropped, threshold, source, stage }
    }

    /// What is to be done next.
    pub fn stage(&self) -> (stage: &Stage)
        ensures
            stage@ == self@.stage,
    {
        &self.stage
    }

    /// What is to be said before that.
    pub fn notices(&self) -> (notices: Vec<(Tone, String)>)
        ensures
            notice_views(notices@) == announcement(self@),
    {
        let mut notices: Vec<(Tone, String)> = Vec::new();
        match &self.stage {
            Stage::Detect => {
                notices.push((Tone::Cyan, "Detecting black bars...".to_owned()));
            },
            Stage::Copy => {
                notices.push((Tone::Yellow, "No black bars detected".to_owned()));
                notices.push((Tone::Cyan, "Copying file without modification...".to_owned()));
            },
            Stage::Encode(filter) => {
                match &self.source {
                    CropSource::Scan(Some(crop)) => {
                        let mut line = "Using scan result: crop=".to_owned();
                        line.append(crop.as_str());
                        notices.push((Tone::Green, line));
                    },
                    _ => {},
                }
                let mut line = "Detected: ".to_owned();
                line.append(filter.as_str());
                notices.push((Tone::Green, line));
                notices.push((Tone::Cyan, "Encoding with crop filter...".to_owned()));
            },
            _ => {},
        }
        assert(notice_views(notices@) =~= announcement(self@));
        notices
    }

    /// Takes in what came of what was to be done. An event that is no answer to it changes nothing.
    pub fn advance(&mut self, event: &Event)
        ensures
            final(self)@ == advanced(old(self)@, *event),
    {
        let next = match (&self.stage, event) {
            (Stage::PrepareDirectory, Event::DirectoryReady) => Some(Stage::CheckOutput),
            (Stage::PrepareDirectory, Event::DirectoryFailed) => Some(
                Stage::Done(Verdict::DirectoryFailed),
            ),
            (Stage::CheckOutput, Event::OutputPresent) => Some(Stage::Done(Verdict::OutputExists)),
            (Stage::CheckOutput, Event::OutputAbsent) => Some(
                choose_for_source(self.in_place, self.copy_uncropped, &self.source),
            ),
            (Stage::Detect, Event::Detected(detection)) => if detection.is_failure() {
                Some(Stage::Done(Verdict::DetectionFailed))
            } else {
                Some(
                    choose_for_crop(
                        self.in_place,
                        self.copy_uncropped,
                        &detection.crop_beyond(self.threshold),
                    ),
                )
            },
            (Stage::Detect, Event::DetectionError) => Some(Stage::Done(Verdict::DetectionError)),
            (Stage::Copy, Event::Copied) => Some(Stage::Done(Verdict::Copied)),
            (Stage::Copy, Event::CopyFailed) => Some(Stage::Done(Verdict::CopyFailed)),
            (Stage::Encode(_), Event::Encoded) => if self.in_place {
                Some(Stage::Replace)
            } else {
                Some(Stage::Done(Verdict::Encoded))
            },
            (Stage::Encode(_), Event::EncodeRejected) => Some(Stage::Done(Verdict::EncodeRejected)),
            (Stage::Encode(_), Event::EncodeError) => Some(Stage::Done(Verdict::EncodeError)),
            (Stage::Replace, Event::Replaced) => Some(Stage::Done(Verdict::Replaced)),
            (Stage::Replace, Event::ReplaceFailed) => Some(Stage::Done(Verdict::ReplaceFailed)),
            _ => None,
        };
        match next {
            Some(stage) => {
                self.stage = stage;
            },
            None => {},
        }
    }
}

/// What is left to do for a file whose processing has not ended.
pub open spec fn steps_left(stage: StageView) -> nat {
    match stage {
        StageView::PrepareDirectory => 5,
        StageView::CheckOutput => 4,
        StageView::Detect => 3,
        StageView::Encode(_) => 2,
        StageView::Copy => 1,
        StageView::Replace => 1,
        StageView::Done(_) => 0,
    }
}

/// Every answer brings a file closer to its end, and a file is at its end exactly where nothing is
/// left to do.
pub proof fn law_every_answer_is_progress(task: TaskView, event: Event)
    requires
        answers(task.stage, event),
    ensures
        steps_left(next_stage(task, event)) < steps_left(task.stage),
        steps_left(task.stage) == 0 <==> task.stage is Done,
{
}

/// A file of which nothing has been done yet.
pub open spec fn fresh_task(
    in_place: bool,
    copy_uncropped: bool,
    threshold: u32,
    source: SourceView,
) -> TaskView {
    TaskView {
        in_place,
        copy_uncropped,
        threshold,
        source,
        stage: first_stage(in_place, copy_uncropped, source),
    }
}

/// The file to process after a whole list of events.
pub open spec fn advanced_by(task: TaskView, events: Seq<Event>) -> TaskView
    decreases events.len(),
{
    if events.len() == 0 {
        task
    } else {
        advanced(advanced_by(task, events.drop_last()), events.last())
    }
}

/// Events leave the rules of a file as they are.
proof fn lemma_rules_are_kept(task: TaskView, events: Seq<Event>)
    ensures
        advanced_by(task, events).in_place == task.in_place,
        advanced_by(task, events).copy_uncropped == task.copy_uncropped,
        advanced_by(task, events).threshold == task.threshold,
        advanced_by(task, events).source == task.source,
    decreases events.len(),
{
    if events.len() > 0 {
        lemma_rules_are_kept(task, events.drop_last());
    }
}

/// The event at position `i` answered what was to be done.
pub open spec fn answered_at(task: TaskView, events: Seq<Event>, i: int) -> bool {
    &&& 0 <= i < events.len()
    &&& answers(advanced_by(task, events.take(i)).stage, events[i])
}

/// What an event answered stays so when more events follow.
proof fn lemma_answered_before(task: TaskView, events: Seq<Event>, i: int)
    requires
        events.len() > 0,
        answered_at(task, events.drop_last(), i),
    ensures
        answered_at(task, events, i),
        events[i] == events.drop_last()[i],
{
    assert(events.drop_last().take(i) == events.take(i));
}

/// The original is replaced only where files are to be replaced, and only after its encoding
/// succeeded.
pub proof fn law_original_is_replaced_only_after_encoding(
    in_place: bool,
    copy_uncropped: bool,
    threshold: u32,
    source: SourceView,
    events: Seq<Event>,
)
    requires
        ({
            let stage = advanced_by(
                fresh_task(in_place, copy_uncropped, threshold, source),
                events,
            ).stage;
            stage is Replace || stage == StageView::Done(Verdict::Replaced)
        }),
    ensures
        in_place,
        exists|i: int| #[trigger]
            answered_at(fresh_task(in_place, copy_uncropped, threshold, source), events, i)
                && events[i] is Encoded,
    decreases events.len(),
{
    let task = fresh_task(in_place, copy_uncropped, threshold, source);
    lemma_rules_are_kept(task, events);
    if events.len() > 0 {
        let rest = events.drop_last();
        let last = events.len() - 1;
        let before = advanced_by(task, rest);
        lemma_rules_are_kept(task, rest);
        assert(events.take(last) == rest);
        if answers(before.stage, events.last()) && events.last() is Encoded {
            assert(answered_at(task, events, last));
        } else {
            law_original_is_replaced_only_after_encoding(
                in_place,
                copy_uncropped,
                threshold,
                source,
                rest,
            );
            let i = choose|i: int| #[trigger] answered_at(task, rest, i) && rest[i] is Encoded;
            lemma_answered_before(task, events, i);
        }
    }
}

/// In a mirrored output directory nothing is detected, copied or encoded before the output file was
/// found to be absent; one that is there already is left alone.
pub proof fn law_existing_output_is_left_alone(
    copy_uncropped: bool,
    threshold: u32,
    source: SourceView,
    events: Seq<Event>,
)
    requires
        ({
            let stage = advanced_by(
                fresh_task(false, copy_uncropped, threshold, source),
                events,
            ).stage;
            stage is Detect || stage is Copy || stage is Encode || stage == StageView::Done(
                Verdict::Copied,
            ) || stage == StageView::Done(Verdict::Encoded)
        }),
    ensures
        exists|i: int| #[trigger]
            answered_at(fresh_task(false, copy_uncropped, threshold, source), events, i)
                && events[i] is OutputAbsent,
    decreases events.len(),
{
    let task = fresh_task(false, copy_uncropped, threshold, source);
    if events.len() > 0 {
        let rest = events.drop_last();
        let last = events.len() - 1;
        let before = advanced_by(task, rest);
        lemma_rules_are_kept(task, rest);
        assert(events.take(last) == rest);
        if answers(before.stage, events.last()) && events.last() is OutputAbsent {
            assert(answered_at(task, events, last));
        } else {
            law_existing_output_is_left_alone(copy_uncropped, threshold, source, rest);
            let i = choose|i: int| #[trigger] answered_at(task, rest, i) && rest[i] is OutputAbsent;
            lemma_answered_before(task, events, i);
        }
    }
}

/// An output file that is there already ends the processing: the file is skipped.
pub proof fn law_existing_output_is_skipped(task: TaskView)
    requires
        task.stage is CheckOutput,
    ensures
        next_stage(task, Event::OutputPresent) == StageView::Done(Verdict::OutputExists),
        Verdict::OutputExists.result() == Outcome::Skipped,
{
}

/// Where originals are replaced, a file without bars is neither copied nor encoded: it is left as it
/// is, and counts as skipped.
pub proof fn law_file_without_bars_is_left_as_is(task: TaskView, detection: CropDetection)
    requires
        task.in_place,
        task.stage is Detect,
        !detection.came_to_nothing(),
        detection.bars(task.threshold) is None,
    ensures
        next_stage(task, Event::Detected(detection)) == StageView::Done(Verdict::NothingToDo),
        first_stage(true, task.copy_uncropped, SourceView::Scan(None)) == StageView::Done(
            Verdict::NothingToDo,
        ),
        Verdict::NothingToDo.result() == Outcome::Skipped,
{
}

/// Where originals are replaced, no file is ever copied.
pub proof fn law_nothing_is_copied_in_place(
    copy_uncropped: bool,
    threshold: u32,
    source: SourceView,
    events: Seq<Event>,
)
    ensures
        !(advanced_by(fresh_task(true, copy_uncropped, threshold, source), events).stage is Copy),
    decreases events.len(),
{
    if events.len() > 0 {
        let task = fresh_task(true, copy_uncropped, threshold, source);
        lemma_rules_are_kept(task, events.drop_last());
        law_nothing_is_copied_in_place(copy_uncropped, threshold, source, events.drop_last());
    }
}

/// A crop that a previous scan found is used as it is, and a file that the scan cleared is taken to
/// have no bars: for neither is the detection run again.
pub proof fn law_scanned_files_are_not_detected_again(
    in_place: bool,
    copy_uncropped: bool,
    threshold: u32,
    crop: Option<Seq<char>>,
    events: Seq<Event>,
)
    ensures
        ({
            let task = advanced_by(
                fresh_task(in_place, copy_uncropped, threshold, SourceView::Scan(crop)),
                events,
            );
            &&& !(task.stage is Detect)
            &&& task.stage matches StageView::Encode(filter) ==> (crop matches Some(value) && filter
                == "crop="@ + value)
            &&& task.stage is Copy ==> crop is None
        }),
    decreases events.len(),
{
    if events.len() > 0 {
        let task = fresh_task(in_place, copy_uncropped, threshold, SourceView::Scan(crop));
        lemma_rules_are_kept(task, events.drop_last());
        law_scanned_files_are_not_detected_again(
            in_place,
            copy_uncropped,
            threshold,
            crop,
            events.drop_last(),
        );
    }
}

/// In a mirrored output directory a file without bars is copied where that was asked for, and
/// skipped otherwise.
pub proof fn law_uncropped_files_are_copied_only_on_request(copy_uncropped: bool)
    ensures
        stage_for_crop(false, copy_uncropped, None) == (if copy_uncropped {
            StageView::Copy
        } else {
            StageView::Done(Verdict::NotCopied)
        }),
        Verdict::NotCopied.result() == Outcome::Skipped,
{
}

/// A file counts as processed only after it was copied, encoded or replaced; a failed encoding
/// always fails the file and takes its output away.
pub proof fn law_only_finished_work_counts(task: TaskView, event: Event)
    requires
        answers(task.stage, event),
    ensures
        next_stage(task, event) matches StageView::Done(verdict) ==> (verdict.result()
            == Outcome::Processed ==> event is Copied || event is Encoded || event is Replaced),
        event is EncodeRejected || event is EncodeError || event is ReplaceFailed ==> (next_stage(
            task,
            event,
        ) matches StageView::Done(verdict) && verdict.result() == Outcome::Failed
            && verdict.discards()),
{
}

/// What is to be done to put one file in the place of another.
#[derive(Clone, Copy, Debug, PartialEq, Eq, Structural)]
pub enum SwapStage {
    /// Rename it over the other.
    Rename,
    /// Copy it over the other.
    Copy,
    /// Remove it, now that it was copied.
    Remove,
    /// Nothing: it took the other's place.
    Replaced,
    /// Nothing: it could not be copied over the other.
    CopyFailed,
    /// Nothing: it was copied over the other but could not be removed.
    RemoveFailed,
}

impl SwapStage {
    /// Nothing is left to do.
    pub open spec fn is_over(self) -> bool {
        self == SwapStage::Replaced || self == SwapStage::CopyFailed || self
            == SwapStage::RemoveFailed
    }

    /// What is to be done after the last step succeeded or failed: a rename that fails falls back
    /// to copy-and-delete.
    pub open spec fn after(self, succeeded: bool) -> SwapStage {
        match (self, succeeded) {
            (SwapStage::Rename, true) => SwapStage::Replaced,
            (SwapStage::Rename, false) => SwapStage::Copy,
            (SwapStage::Copy, true) => SwapStage::Remove,
            (SwapStage::Copy, false) => SwapStage::CopyFailed,
            (SwapStage::Remove, true) => SwapStage::Replaced,
            (SwapStage::Remove, false) => SwapStage::RemoveFailed,
            _ => self,
        }
    }

    /// What is to be done after the last step succeeded or failed.
    pub fn next(self, succeeded: bool) -> (stage: SwapStage)
        ensures
            stage == self.after(succeeded),
    {
        match (self, succeeded) {
            (SwapStage::Rename, true) => SwapStage::Replaced,
            (SwapStage::Rename, false) => SwapStage::Copy,
            (SwapStage::Copy, true) => SwapStage::Remove,
            (SwapStage::Copy, false) => SwapStage::CopyFailed,
            (SwapStage::Remove, true) => SwapStage::Replaced,
            (SwapStage::Remove, false) => SwapStage::RemoveFailed,
            _ => self,
        }
    }
}

/// A file takes the place of another exactly where the rename works, or else the copy and then the
/// removal do; three steps decide it.
pub proof fn law_swap_succeeds_by_rename_or_copy(renamed: bool, copied: bool, removed: bool)
    ensures
        ({
            let first = SwapStage::Rename.after(renamed);
            let second = first.after(copied);
            let third = second.after(removed);
            &&& third.is_over()
            &&& third == SwapStage::Replaced <==> renamed || (copied && removed)
            &&& renamed ==> first == SwapStage::Replaced
            &&& !renamed ==> first == SwapStage::Copy
            &&& !renamed && !copied ==> second == SwapStage::CopyFailed
            &&& !renamed && copied ==> second == SwapStage::Remove
            &&& !renamed && copied && !removed ==> third == SwapStage::RemoveFailed
        }),
{
}

/// Whether or not originals are replaced, a detected crop that trims at most the threshold from every
/// edge is never encoded: the file is left as it is, skipped or copied. A crop that trims more from
/// any edge is encoded with exactly that crop.
pub proof fn law_threshold_decides_what_is_encoded(
    task: TaskView,
    detection: CropDetection,
    width: u32,
    height: u32,
    x: u32,
    y: u32,
    size: (u32, u32),
)
    requires
        task.stage is Detect,
        detection.crop matches Some(value) && value@ == crop_text(width, height, x, y),
        detection.source_size == Some(size),
    ensures
        ({
            let next = next_stage(task, Event::Detected(detection));
            let slight = {
                &&& width <= size.0
                &&& height <= size.1
                &&& x <= task.threshold
                &&& size.0 - (x + width) <= task.threshold
                &&& y <= task.threshold
                &&& size.1 - (y + height) <= task.threshold
            };
            &&& !slight ==> next == StageView::Encode("crop="@ + crop_text(width, height, x, y))
            &&& slight && task.in_place ==> next == StageView::Done(Verdict::NothingToDo)
            &&& slight && !task.in_place && task.copy_uncropped ==> next == StageView::Copy
            &&& slight && !task.in_place && !task.copy_uncropped ==> next == StageView::Done(
                Verdict::NotCopied,
            )
        }),
{
    law_bars_at_any_edge_are_worth_removing(width, height, x, y, size, task.threshold);
}

/// A detection without a report fails the file where the process failed, and finds no bars
/// otherwise; a report about a frame of unknown size is encoded as it stands.
pub proof fn law_detection_without_a_report_or_a_size(task: TaskView, detection: CropDetection)
    requires
        task.stage is Detect,
    ensures
        ({
            let next = next_stage(task, Event::Detected(detection));
            &&& detection.crop is None && detection.failed ==> next == StageView::Done(
                Verdict::DetectionFailed,
            )
            &&& detection.crop is None && !detection.failed ==> next == (if task.in_place {
                StageView::Done(Verdict::NothingToDo)
            } else if task.copy_uncropped {
                StageView::Copy
            } else {
                StageView::Done(Verdict::NotCopied)
            })
            &&& detection.source_size is None ==> (detection.crop matches Some(value) ==> next
                == StageView::Encode("crop="@ + value@))
        }),
{
}

/// A file goes through its steps in order: without replacement the directory and the output file
/// come first, with it neither does; what follows depends on where the crop comes from; every step
/// that fails ends the file with its own verdict.
pub proof fn law_steps_follow_in_order(task: TaskView, event: Event)
    ensures
        task.stage is PrepareDirectory && event is DirectoryReady ==> next_stage(task, event)
            is CheckOutput,
        task.stage is PrepareDirectory && event is DirectoryFailed ==> next_stage(task, event)
            == StageView::Done(Verdict::DirectoryFailed),
        task.stage is CheckOutput && event is OutputPresent ==> next_stage(task, event)
            == StageView::Done(Verdict::OutputExists),
        task.stage is CheckOutput && event is OutputAbsent ==> {
            let next = next_stage(task, event);
            &&& task.source is Detect ==> next is Detect
            &&& task.source matches SourceView::Scan(Some(crop)) ==> next == StageView::Encode(
                "crop="@ + crop,
            )
            &&& task.source == SourceView::Scan(None) ==> next == (if task.in_place {
                StageView::Done(Verdict::NothingToDo)
            } else if task.copy_uncropped {
                StageView::Copy
            } else {
                StageView::Done(Verdict::NotCopied)
            })
        },
        task.stage is Detect && event is DetectionError ==> next_stage(task, event)
            == StageView::Done(Verdict::DetectionError),
        task.stage is Copy && event is Copied ==> next_stage(task, event) == StageView::Done(
            Verdict::Copied,
        ),
        task.stage is Copy && event is CopyFailed ==> next_stage(task, event) == StageView::Done(
            Verdict::CopyFailed,
        ),
        task.stage is Encode && event is Encoded && task.in_place ==> next_stage(task, event)
            is Replace,
        task.stage is Encode && event is Encoded && !task.in_place ==> next_stage(task, event)
            == StageView::Done(Verdict::Encoded),
        task.stage is Encode && event is EncodeRejected ==> next_stage(task, event)
            == StageView::Done(Verdict::EncodeRejected),
        task.stage is Encode && event is EncodeError ==> next_stage(task, event)
            == StageView::Done(Verdict::EncodeError),
        task.stage is Replace && event is Replaced ==> next_stage(task, event) == StageView::Done(
            Verdict::Replaced,
        ),
        task.stage is Replace && event is ReplaceFailed ==> next_stage(task, event)
            == StageView::Done(Verdict::ReplaceFailed),
        task.stage is Done ==> next_stage(task, event) == task.stage,
        advanced(task, event) == (TaskView { stage: next_stage(task, event), ..task }),
{
}

/// An event is taken in only while the step that it answers is under way.
pub proof fn law_only_answers_move_a_file(task: TaskView, event: Event)
    ensures
        (event is DirectoryReady || event is DirectoryFailed) && !(task.stage is PrepareDirectory)
            ==> next_stage(task, event) == task.stage,
        (event is OutputPresent || event is OutputAbsent) && !(task.stage is CheckOutput)
            ==> next_stage(task, event) == task.stage,
        (event is Detected || event is DetectionError) && !(task.stage is Detect) ==> next_stage(
            task,
            event,
        ) == task.stage,
        (event is Copied || event is CopyFailed) && !(task.stage is Copy) ==> next_stage(task, event)
            == task.stage,
        (event is Encoded || event is EncodeRejected || event is EncodeError) && !(task.stage
            is Encode) ==> next_stage(task, event) == task.stage,
        (event is Replaced || event is ReplaceFailed) && !(task.stage is Replace) ==> next_stage(
            task,
            event,
        ) == task.stage,
{
}

/// The first step: in place the crop is looked for at once, otherwise the directory is prepared.
pub proof fn law_first_step_depends_on_the_output(copy_uncropped: bool, source: SourceView)
    ensures
        first_stage(false, copy_uncropped, source) is PrepareDirectory,
        source is Detect ==> first_stage(true, copy_uncropped, source) is Detect,
        source matches SourceView::Scan(Some(crop)) ==> first_stage(true, copy_uncropped, source)
            == StageView::Encode("crop="@ + crop),
        source == SourceView::Scan(None) ==> first_stage(true, copy_uncropped, source)
            == StageView::Done(Verdict::NothingToDo),
{
}

/// Files that were copied, encoded or replaced count as processed; those whose output was there, or
/// that had no bars and were not copied, as skipped; all others as failed. An encoded file is
/// discarded exactly where its encoding or the replacement failed.
pub proof fn law_verdicts_count_by_what_was_done(verdict: Verdict)
    ensures
        verdict.result() == Outcome::Processed <==> (verdict is Copied || verdict is Encoded
            || verdict is Replaced),
        verdict.result() == Outcome::Skipped <==> (verdict is OutputExists || verdict is NothingToDo
            || verdict is NotCopied),
        verdict.result() == Outcome::Failed <==> (verdict is DirectoryFailed || verdict
            is DetectionError || verdict is DetectionFailed || verdict is CopyFailed || verdict
            is ReplaceFailed || verdict is EncodeRejected || verdict is EncodeError),
        verdict.discards() <==> (verdict is EncodeRejected || verdict is EncodeError || verdict
            is ReplaceFailed),
{
}

/// Each closing message says what happened, and names the file, the directory or the error that it is
/// about.
pub proof fn law_messages_say_what_happened(
    verdict: Verdict,
    subject: Seq<char>,
    detail: Seq<char>,
)
    ensures
        verdict is DirectoryFailed ==> verdict.text(subject, detail)
            == "Failed to create directory "@ + subject + ": "@ + detail,
        verdict is OutputExists ==> verdict.text(subject, detail)
            == "SKIPPED: Output file already exists"@,
        verdict is DetectionError || verdict is EncodeError ==> verdict.text(subject, detail)
            == detail,
        verdict is DetectionFailed ==> verdict.text(subject, detail)
            == "FAILED: FFmpeg returned an error during crop detection"@,
        verdict is NothingToDo ==> verdict.text(subject, detail)
            == "No black bars detected - nothing to do, file left as is"@,
        verdict is NotCopied ==> verdict.text(subject, detail)
            == "No black bars detected - skipping (use --copy-uncropped to copy unchanged files)"@,
        verdict is Copied ==> verdict.text(subject, detail) == "SUCCESS: Copied without changes"@,
        verdict is CopyFailed ==> verdict.text(subject, detail) == "Failed to copy file: "@ + detail,
        verdict is Encoded ==> verdict.text(subject, detail) == "SUCCESS: "@ + subject,
        verdict is Replaced ==> verdict.text(subject, detail) == "SUCCESS: "@ + subject
            + " (original replaced)"@,
        verdict is ReplaceFailed ==> verdict.text(subject, detail)
            == "Failed to replace original "@ + subject + ": "@ + detail,
        verdict is EncodeRejected ==> verdict.text(subject, detail)
            == "FAILED: FFmpeg returned an error"@,
{
}

/// What is announced is what is about to be done: the detection, the copy, or the encode with its
/// filter and, where a scan found it, the crop that is used. Nothing else is announced.
pub proof fn law_announcements_name_what_is_done(task: TaskView)
    ensures
        task.stage is Detect ==> announcement(task) == seq![
            (Tone::Cyan, "Detecting black bars..."@),
        ],
        task.stage is Copy ==> announcement(task) == seq![
            (Tone::Yellow, "No black bars detected"@),
            (Tone::Cyan, "Copying file without modification..."@),
        ],
        task.stage matches StageView::Encode(filter) ==> {
            let said = announcement(task);
            let last = said.len() - 1;
            &&& said[last] == (Tone::Cyan, "Encoding with crop filter..."@)
            &&& said[last - 1] == (Tone::Green, "Detected: "@ + filter)
            &&& match task.source {
                SourceView::Scan(Some(crop)) => said.len() == 3 && said[0] == (
                    Tone::Green,
                    "Using scan result: crop="@ + crop,
                ),
                _ => said.len() == 2,
            }
        },
        task.stage is PrepareDirectory || task.stage is CheckOutput || task.stage is Replace
            || task.stage is Done ==> announcement(task).len() == 0,
{
}

/// The output is named by its directory, or said to go in place.
pub proof fn law_output_is_named(mode: OutputMode)
    ensures
        mode matches OutputMode::Mirror(dir) ==> mode.target() == "Output: "@ + dir@,
        mode is InPlace ==> mode.target() == "Mode:   in-place (originals are overwritten)"@,
{
}

/// The views of sources, steps and notices hold what the values hold.
pub proof fn law_views_hold_what_the_values_hold(
    source: CropSource,
    stage: Stage,
    notices: Seq<(Tone, String)>,
    i: int,
)
    requires
        0 <= i < notices.len(),
    ensures
        source is Detect <==> source@ is Detect,
        source matches CropSource::Scan(Some(crop)) ==> source@ == SourceView::Scan(Some(crop@)),
        source matches CropSource::Scan(None) ==> source@ == SourceView::Scan(None),
        stage is PrepareDirectory <==> stage@ is PrepareDirectory,
        stage is CheckOutput <==> stage@ is CheckOutput,
        stage is Detect <==> stage@ is Detect,
        stage is Copy <==> stage@ is Copy,
        stage is Replace <==> stage@ is Replace,
        stage matches Stage::Encode(filter) ==> stage@ == StageView::Encode(filter@),
        stage matches Stage::Done(verdict) ==> stage@ == StageView::Done(verdict),
        notice_views(notices).len() == notices.len(),
        notice_views(notices)[i] == (notices[i].0, notices[i].1@),
{
}

} // verus!
