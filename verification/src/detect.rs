//! Crop detection: what is asked of ffmpeg, and what its events say.
use vstd::prelude::*;

use crate::capture::{
    last_items,
    law_last_lines_are_kept,
    recorded_errors,
    FfmpegDiagnostics,
    LogCapture,
    LogLevel,
};
use crate::counter::{
    counted_report,
    counts_after,
    has_room_for,
    is_first_seen,
    is_selection,
    law_counter_has_room_for_many_lines,
    law_most_reported_value_is_selected,
    law_pushed_lines_are_tallied,
    occurrences,
    reported,
    reports_of,
    select_crop,
    CropCounter,
};
use crate::crop::{
    crop_numbers,
    crop_text,
    is_within_threshold,
    law_numbers_decide_at_every_edge,
    law_threshold_measures_the_edges,
    within_threshold,
};
use crate::text::{decimal, decimal_string, text_of, texts};

verus! {

/// The filter that makes ffmpeg report crop values: noise limit 24, dimensions rounded to 16.
pub const CROP_DETECT_FILTER: &'static str = "cropdetect=24:16:0";

/// How many log lines are kept for the diagnostics of a failed process.
pub const LOG_TAIL_LINES: usize = 10;

/// The arguments of a detection run, around the input file.
pub struct DetectArguments {
    /// What stands before the input file.
    pub before_input: Vec<String>,
    /// What stands after the input file and before the output.
    pub after_input: Vec<String>,
}

/// The ffmpeg arguments of a detection before the input file.
pub open spec fn options_before_input(start: nat) -> Seq<Seq<char>> {
    seq!["-ss"@, decimal(start)]
}

/// The ffmpeg arguments of a detection after the input file.
pub open spec fn options_after_input(seconds: nat) -> Seq<Seq<char>> {
    seq!["-t"@, decimal(seconds), "-vf"@, CROP_DETECT_FILTER@, "-f"@, "null"@]
}

/// The ffmpeg arguments that seek to `start` and run the crop detection for `seconds`. The filter
/// is bound to the video streams alone, so files with audio and subtitles can be analyzed too, and
/// what it puts out is thrown away.
pub fn detect_arguments(start: u64, seconds: u64) -> (arguments: DetectArguments)
    ensures
        texts(arguments.before_input@) == options_before_input(start as nat),
        texts(arguments.after_input@) == options_after_input(seconds as nat),
{
    let before_input = vec!["-ss".to_owned(), decimal_string(start as u128)];
    let after_input = vec![
        "-t".to_owned(),
        decimal_string(seconds as u128),
        "-vf".to_owned(),
        CROP_DETECT_FILTER.to_owned(),
        "-f".to_owned(),
        "null".to_owned(),
    ];
    assert(texts(before_input@) =~= options_before_input(start as nat));
    assert(texts(after_input@) =~= options_after_input(seconds as nat));
    DetectArguments { before_input, after_input }
}

/// A detected crop is negligible: it trims at most `threshold` pixels from every edge of the frame.
/// Without a known frame size no crop is negligible.
pub open spec fn is_negligible_crop(
    crop: Option<Seq<char>>,
    size: Option<(u32, u32)>,
    threshold: u32,
) -> bool {
    match (crop, size) {
        (Some(value), Some(frame)) => within_threshold(value, frame, threshold),
        _ => false,
    }
}

/// The crop worth applying: the detected one, unless it is negligible.
pub open spec fn worthwhile_crop(
    crop: Option<Seq<char>>,
    size: Option<(u32, u32)>,
    threshold: u32,
) -> Option<Seq<char>> {
    if is_negligible_crop(crop, size, threshold) {
        None
    } else {
        crop
    }
}

/// Whether a crop value, where there is one, is negligible for a frame of a known size.
pub fn is_negligible(crop: &Option<String>, size: Option<(u32, u32)>, threshold: u32) -> (negligible:
    bool)
    ensures
        negligible == is_negligible_crop(text_of(*crop), size, threshold),
{
    match crop {
        Some(value) => match size {
            Some(frame) => is_within_threshold(value.as_str(), frame, threshold),
            None => false,
        },
        None => false,
    }
}

/// What a detection run found out about a video.
pub struct CropDetection {
    /// The crop value reported most often.
    pub crop: Option<String>,
    /// The frame size of the largest video stream.
    pub source_size: Option<(u32, u32)>,
    /// Whether the ffmpeg process failed.
    pub failed: bool,
    /// What the process logged.
    pub diagnostics: FfmpegDiagnostics,
}

impl CropDetection {
    /// The run failed and reported no crop value.
    pub open spec fn came_to_nothing(&self) -> bool {
        self.failed && self.crop is None
    }

    /// The crop worth applying at the given threshold.
    pub open spec fn bars(&self, threshold: u32) -> Option<Seq<char>> {
        worthwhile_crop(text_of(self.crop), self.source_size, threshold)
    }

    /// Whether the run failed without reporting a crop value.
    pub fn is_failure(&self) -> (failure: bool)
        ensures
            failure == self.came_to_nothing(),
    {
        self.failed && self.crop.is_none()
    }

    /// The detected crop, unless it is negligible at the given threshold.
    pub fn crop_beyond(&self, threshold: u32) -> (crop: Option<String>)
        ensures
            text_of(crop) == self.bars(threshold),
    {
        if is_negligible(&self.crop, self.source_size, threshold) {
            None
        } else {
            match &self.crop {
                Some(value) => Some(value.clone()),
                None => None,
            }
        }
    }
}

/// What ffmpeg tells about a running detection.
pub enum ProbeEvent {
    /// The input holds a video stream with frames of this size.
    VideoStream { width: u32, height: u32 },
    /// A log line.
    Log { level: LogLevel, line: String },
    /// Anything else.
    Other,
}

/// The number of pixels in a frame.
pub open spec fn area(size: (u32, u32)) -> int {
    size.0 * size.1
}

/// The larger of two frame sizes; the one already known where they have the same area.
pub open spec fn larger_size(known: Option<(u32, u32)>, size: (u32, u32)) -> (u32, u32) {
    match known {
        Some(largest) => if area(largest) >= area(size) {
            largest
        } else {
            size
        },
        None => size,
    }
}

/// What a detector has gathered.
pub struct Gathered {
    /// The reported crop values and their counts.
    pub counts: Seq<(Seq<char>, nat)>,
    /// The lines logged as errors.
    pub errors: Seq<Seq<char>>,
    /// The last log lines.
    pub tail: Seq<Seq<char>>,
    /// The largest frame size so far.
    pub size: Option<(u32, u32)>,
}

/// What a detector has gathered before any event.
pub open spec fn nothing_gathered() -> Gathered {
    Gathered { counts: Seq::empty(), errors: Seq::empty(), tail: Seq::empty(), size: None }
}

/// What a detector has gathered after one more event.
pub open spec fn gathered(state: Gathered, event: ProbeEvent) -> Gathered {
    match event {
        ProbeEvent::VideoStream { width, height } => Gathered {
            size: Some(larger_size(state.size, (width, height))),
            ..state
        },
        ProbeEvent::Log { level, line } => Gathered {
            counts: counted_report(state.counts, reported(line@)),
            errors: if level.is_failure() {
                state.errors.push(line@)
            } else {
                state.errors
            },
            tail: last_items(state.tail.push(line@), LOG_TAIL_LINES as nat),
            ..state
        },
        ProbeEvent::Other => state,
    }
}

/// The event can be counted: it is no log line, or the count of the value that it reports is not at
/// its limit.
pub open spec fn is_countable(state: Gathered, event: ProbeEvent) -> bool {
    match event {
        ProbeEvent::Log { level, line } => has_room_for(state.counts, reported(line@)),
        _ => true,
    }
}

/// Gathers the events of a detection run.
pub struct CropDetector {
    capture: LogCapture,
    counter: CropCounter,
    source_size: Option<(u32, u32)>,
}

impl View for CropDetector {
    type V = Gathered;

    closed spec fn view(&self) -> Gathered {
        Gathered {
            counts: self.counter@,
            errors: self.capture.errors(),
            tail: self.capture.tail(),
            size: self.source_size,
        }
    }
}

impl CropDetector {
    /// The parts of the detector are in order.
    pub closed spec fn well_formed(&self) -> bool {
        &&& self.capture.well_formed()
        &&& self.capture.capacity() == LOG_TAIL_LINES
        &&& self.counter.well_formed()
    }

    /// A detector that has seen no event.
    pub fn new() -> (detector: CropDetector)
        ensures
            detector@ == nothing_gathered(),
            detector.well_formed(),
    {
        CropDetector {
            capture: LogCapture::new(LOG_TAIL_LINES),
            counter: CropCounter::new(),
            source_size: None,
        }
    }

    /// Takes in one event. Where the count of a reported crop value is at its limit the result is
    /// false, and the counts stay as they are.
    pub fn observe(&mut self, event: &ProbeEvent) -> (counted: bool)
        requires
            old(self).well_formed(),
        ensures
            counted == is_countable(old(self)@, *event),
            counted ==> final(self)@ == gathered(old(self)@, *event),
            !counted ==> final(self)@ == (Gathered {
                counts: old(self)@.counts,
                ..gathered(old(self)@, *event)
            }),
            final(self).well_formed(),
    {
        match event {
            ProbeEvent::VideoStream { width, height } => {
                let size = (*width, *height);
                let chosen = match self.source_size {
                    Some(largest) => {
                        proof {
                            assert(largest.0 * largest.1 <= 0xffff_ffff * 0xffff_ffff)
                                by (nonlinear_arith)
                                requires
                                    largest.0 <= 0xffff_ffff,
                                    largest.1 <= 0xffff_ffff,
                            ;
                            assert(size.0 * size.1 <= 0xffff_ffff * 0xffff_ffff)
                                by (nonlinear_arith)
                                requires
                                    size.0 <= 0xffff_ffff,
                                    size.1 <= 0xffff_ffff,
                            ;
                        }
                        if largest.0 as u64 * largest.1 as u64 >= size.0 as u64 * size.1 as u64 {
                            largest
                        } else {
                            size
                        }
                    },
                    None => size,
                };
                self.source_size = Some(chosen);
                true
            },
            ProbeEvent::Log { level, line } => {
                self.capture.push(*level, line.as_str());
                self.counter.try_push(line.as_str())
            },
            ProbeEvent::Other => true,
        }
    }

    /// The result of the run, once the ffmpeg process has ended.
    pub fn finish(self, succeeded: bool) -> (detection: CropDetection)
        requires
            self.well_formed(),
        ensures
            is_selection(self@.counts, text_of(detection.crop)),
            detection.source_size == self@.size,
            detection.failed == !succeeded,
            texts(detection.diagnostics.errors@) == self@.errors,
            texts(detection.diagnostics.tail@) == self@.tail,
    {
        let CropDetector { capture, counter, source_size } = self;
        let values = counter.finish();
        let crop = select_crop(values.as_slice());
        CropDetection { crop, source_size, failed: !succeeded, diagnostics: capture.finish() }
    }
}

/// What a detector has gathered after a whole list of events.
pub open spec fn gathered_all(events: Seq<ProbeEvent>) -> Gathered
    decreases events.len(),
{
    if events.len() == 0 {
        nothing_gathered()
    } else {
        gathered(gathered_all(events.drop_last()), events.last())
    }
}

/// The log lines among the events, in order.
pub open spec fn log_lines(events: Seq<ProbeEvent>) -> Seq<Seq<char>>
    decreases events.len(),
{
    if events.len() == 0 {
        Seq::empty()
    } else {
        let before = log_lines(events.drop_last());
        match events.last() {
            ProbeEvent::Log { level, line } => before.push(line@),
            _ => before,
        }
    }
}

/// The log lines among the events with their levels, in order.
pub open spec fn leveled_lines(events: Seq<ProbeEvent>) -> Seq<(LogLevel, Seq<char>)>
    decreases events.len(),
{
    if events.len() == 0 {
        Seq::empty()
    } else {
        let before = leveled_lines(events.drop_last());
        match events.last() {
            ProbeEvent::Log { level, line } => before.push((level, line@)),
            _ => before,
        }
    }
}

/// The frame sizes among the events, in order.
pub open spec fn frame_sizes(events: Seq<ProbeEvent>) -> Seq<(u32, u32)>
    decreases events.len(),
{
    if events.len() == 0 {
        Seq::empty()
    } else {
        let before = frame_sizes(events.drop_last());
        match events.last() {
            ProbeEvent::VideoStream { width, height } => before.push((width, height)),
            _ => before,
        }
    }
}

/// Of all frame sizes, the first one with the largest area is kept.
pub open spec fn is_first_largest(sizes: Seq<(u32, u32)>, kept: Option<(u32, u32)>) -> bool {
    match kept {
        Some(largest) => exists|i: int|
            {
                &&& 0 <= i < sizes.len()
                &&& #[trigger] sizes[i] == largest
                &&& forall|j: int|
                    0 <= j < sizes.len() ==> (#[trigger] sizes[j]).0 * sizes[j].1 <= largest.0
                        * largest.1
                &&& forall|j: int|
                    0 <= j < i ==> (#[trigger] sizes[j]).0 * sizes[j].1 < largest.0 * largest.1
            },
        None => sizes.len() == 0,
    }
}

/// The events of a run are gathered in full: every log line is counted, the last of them are kept,
/// the errors among them are recorded, and the first of the largest frames gives the size.
pub proof fn law_every_event_is_gathered(events: Seq<ProbeEvent>)
    ensures
        gathered_all(events).counts == counts_after(log_lines(events)),
        gathered_all(events).tail == last_items(log_lines(events), LOG_TAIL_LINES as nat),
        gathered_all(events).errors == recorded_errors(leveled_lines(events)),
        is_first_largest(frame_sizes(events), gathered_all(events).size),
    decreases events.len(),
{
    law_last_lines_are_kept(log_lines(events), LOG_TAIL_LINES as nat);
    if events.len() > 0 {
        let rest = events.drop_last();
        law_every_event_is_gathered(rest);
        law_last_lines_are_kept(log_lines(rest), LOG_TAIL_LINES as nat);
        match events.last() {
            ProbeEvent::VideoStream { width, height } => {
                let sizes = frame_sizes(events);
                let before = frame_sizes(rest);
                let size = (width, height);
                let last = before.len() as int;
                assert(sizes == before.push(size));
                let chosen = larger_size(gathered_all(rest).size, size);
                match gathered_all(rest).size {
                    Some(largest) => {
                        let i = choose|i: int|
                            {
                                &&& 0 <= i < before.len()
                                &&& #[trigger] before[i] == largest
                                &&& forall|j: int|
                                    0 <= j < before.len() ==> area(#[trigger] before[j]) <= area(
                                        largest,
                                    )
                                &&& forall|j: int|
                                    0 <= j < i ==> area(#[trigger] before[j]) < area(largest)
                            };
                        assert(sizes[i] == largest);
                        assert(sizes[last] == size);
                        assert forall|j: int| 0 <= j < sizes.len() implies area(
                            #[trigger] sizes[j],
                        ) <= area(chosen) by {
                            if j < last {
                                assert(sizes[j] == before[j]);
                            }
                        }
                        if chosen == largest {
                            assert forall|j: int| 0 <= j < i implies area(#[trigger] sizes[j])
                                < area(chosen) by {
                                assert(sizes[j] == before[j]);
                            }
                        } else {
                            assert forall|j: int| 0 <= j < last implies area(#[trigger] sizes[j])
                                < area(chosen) by {
                                assert(sizes[j] == before[j]);
                            }
                        }
                    },
                    None => {
                        assert(sizes[0] == size);
                    },
                }
            },
            ProbeEvent::Log { level, line } => {
                assert(log_lines(events).drop_last() == log_lines(rest));
                assert(leveled_lines(events).drop_last() == leveled_lines(rest));
            },
            ProbeEvent::Other => {},
        }
    }
}

/// The crop of a finished run is the value reported most often in its log lines; where several are
/// reported as often, it is the one seen first.
pub proof fn law_detected_crop_is_reported_most_often(
    events: Seq<ProbeEvent>,
    crop: Option<Seq<char>>,
)
    requires
        is_selection(gathered_all(events).counts, crop),
    ensures
        crop is None <==> reports_of(log_lines(events)).len() == 0,
        crop matches Some(v) ==> forall|w: Seq<char>| #[trigger]
            occurrences(reports_of(log_lines(events)), w) <= occurrences(
                reports_of(log_lines(events)),
                v,
            ),
        crop matches Some(v) ==> forall|w: Seq<char>, i: int, j: int|
            #![trigger is_first_seen(reports_of(log_lines(events)), v, i), is_first_seen(reports_of(log_lines(events)), w, j)]
            w != v && occurrences(reports_of(log_lines(events)), w) == occurrences(
                reports_of(log_lines(events)),
                v,
            ) && is_first_seen(reports_of(log_lines(events)), v, i) && is_first_seen(
                reports_of(log_lines(events)),
                w,
                j,
            ) ==> i < j,
{
    law_every_event_is_gathered(events);
    law_pushed_lines_are_tallied(log_lines(events));
    law_most_reported_value_is_selected(reports_of(log_lines(events)), crop);
}

/// A higher threshold never makes a negligible crop worth applying.
pub proof fn law_higher_threshold_applies_fewer_crops(
    crop: Option<Seq<char>>,
    size: Option<(u32, u32)>,
    low: u32,
    high: u32,
)
    requires
        low <= high,
        worthwhile_crop(crop, size, low) is None,
    ensures
        worthwhile_crop(crop, size, high) is None,
{
}

/// A detected crop of `width` by `height` pixels at (`x`, `y`) is ignored exactly where it trims at
/// most `threshold` pixels from the left, the right, the top and the bottom of the frame; one that
/// trims more from any edge is worth applying, and so is one that is larger than the frame.
pub proof fn law_bars_at_any_edge_are_worth_removing(
    width: u32,
    height: u32,
    x: u32,
    y: u32,
    size: (u32, u32),
    threshold: u32,
)
    ensures
        ({
            let crop = crop_text(width, height, x, y);
            let ignored = is_negligible_crop(Some(crop), Some(size), threshold);
            &&& ignored <==> {
                &&& width <= size.0
                &&& height <= size.1
                &&& x <= threshold
                &&& size.0 - (x + width) <= threshold
                &&& y <= threshold
                &&& size.1 - (y + height) <= threshold
            }
            &&& worthwhile_crop(Some(crop), Some(size), threshold) == (if ignored {
                None
            } else {
                Some(crop)
            })
        }),
{
    law_threshold_measures_the_edges(width, height, x, y, size, threshold);
}

/// However a crop value is written, it is ignored only in a frame of known size, only where it is
/// four numbers, and only where they leave out at most `threshold` pixels at each edge; whatever is
/// not ignored is applied as it was reported.
pub proof fn law_only_slight_crops_are_ignored(
    crop: Seq<char>,
    size: Option<(u32, u32)>,
    threshold: u32,
)
    ensures
        is_negligible_crop(Some(crop), size, threshold) <==> (size matches Some(s) && crop_numbers(
            crop,
        ) matches Some(n) && n.0 <= s.0 && n.1 <= s.1 && n.2 <= threshold && s.0 <= n.2 + n.0
            + threshold && n.3 <= threshold && s.1 <= n.3 + n.1 + threshold),
        worthwhile_crop(Some(crop), size, threshold) is None <==> is_negligible_crop(
            Some(crop),
            size,
            threshold,
        ),
        worthwhile_crop(Some(crop), size, threshold) matches Some(kept) ==> kept == crop,
        !is_negligible_crop(None, size, threshold),
        worthwhile_crop(None, size, threshold) is None,
{
    if let Some(s) = size {
        law_numbers_decide_at_every_edge(crop, s, threshold);
    }
}

/// A detection comes to nothing exactly where the process failed without a report; its bars are those
/// of its own crop, in its own frame.
pub proof fn law_detection_speaks_of_its_own_crop(detection: CropDetection, threshold: u32)
    ensures
        detection.came_to_nothing() <==> detection.failed && detection.crop is None,
        detection.crop is None ==> detection.bars(threshold) is None,
        detection.crop matches Some(value) ==> detection.bars(threshold) == worthwhile_crop(
            Some(value@),
            detection.source_size,
            threshold,
        ),
{
}

/// The last ten log lines of a run are kept, or all of them where there are fewer.
pub proof fn law_last_ten_lines_are_kept(events: Seq<ProbeEvent>)
    ensures
        gathered_all(events).tail.len() == (if log_lines(events).len() < 10 {
            log_lines(events).len()
        } else {
            10
        }),
        forall|i: int|
            0 <= i < gathered_all(events).tail.len() ==> #[trigger] gathered_all(events).tail[i]
                == log_lines(events)[log_lines(events).len() - gathered_all(events).tail.len() + i],
{
    law_every_event_is_gathered(events);
    law_last_lines_are_kept(log_lines(events), 10);
}

/// There are at most as many log lines as events.
proof fn lemma_log_lines_are_bounded(events: Seq<ProbeEvent>)
    ensures
        log_lines(events).len() <= events.len(),
    decreases events.len(),
{
    if events.len() > 0 {
        lemma_log_lines_are_bounded(events.drop_last());
    }
}

/// Whatever a run logs, a detector can count another event as long as it has seen fewer than
/// 4294967295 of them.
pub proof fn law_detector_counts_long_runs(events: Seq<ProbeEvent>, event: ProbeEvent)
    requires
        events.len() < 0xffff_ffff,
    ensures
        is_countable(gathered_all(events), event),
{
    law_every_event_is_gathered(events);
    lemma_log_lines_are_bounded(events);
    if let ProbeEvent::Log { level, line } = event {
        law_counter_has_room_for_many_lines(log_lines(events), line@);
    }
}

/// A detection seeks to its start before the input is read, and then analyzes the given number of
/// seconds: cropdetect with noise limit 24 and rounding to 16, on the video streams, into nothing.
pub proof fn law_detection_analyzes_the_given_window(start: nat, seconds: nat)
    ensures
        options_before_input(start) == seq!["-ss"@, decimal(start)],
        options_after_input(seconds) == seq!["-t"@, decimal(seconds)] + seq![
            "-vf"@,
            "cropdetect=24:16:0"@,
        ] + seq!["-f"@, "null"@],
{
    assert(options_after_input(seconds) =~= seq!["-t"@, decimal(seconds)] + seq![
        "-vf"@,
        "cropdetect=24:16:0"@,
    ] + seq!["-f"@, "null"@]);
}

} // verus!
