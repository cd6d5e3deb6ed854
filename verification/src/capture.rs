//! Keeping the log lines of an ffmpeg process that explain a failure.
use std::collections::VecDeque;

use vstd::prelude::*;

use crate::text::texts;

verus! {

/// The level at which ffmpeg logged a line.
#[derive(Clone, Copy, Debug, PartialEq, Eq, Structural)]
pub enum LogLevel {
    Info,
    Warning,
    Error,
    Fatal,
    Unknown,
}

impl LogLevel {
    /// Whether the level stands for a failure.
    pub open spec fn is_failure(self) -> bool {
        self == LogLevel::Error || self == LogLevel::Fatal
    }

    /// Whether the level stands for a failure: an error or a fatal error.
    pub fn is_error(self) -> (failure: bool)
        ensures
            failure == self.is_failure(),
    {
        self == LogLevel::Error || self == LogLevel::Fatal
    }
}

/// Diagnostic output collected from an ffmpeg process, shown when the process fails so that the
/// underlying error is visible.
pub struct FfmpegDiagnostics {
    /// The lines logged as errors.
    pub errors: Vec<String>,
    /// The last lines of any level.
    pub tail: Vec<String>,
}

/// The lines to show: the errors, or the last lines where no error was logged.
pub open spec fn shown_lines<A>(errors: Seq<A>, tail: Seq<A>) -> Seq<A> {
    if errors.len() == 0 {
        tail
    } else {
        errors
    }
}

impl FfmpegDiagnostics {
    /// The lines to show: the errors, or the last lines where no error was logged.
    pub fn lines(&self) -> (lines: &Vec<String>)
        ensures
            lines@ == shown_lines(self.errors@, self.tail@),
    {
        if self.errors.is_empty() {
            &self.tail
        } else {
            &self.errors
        }
    }
}

/// The last `n` items of a list, or all of them where there are fewer.
pub open spec fn last_items<A>(items: Seq<A>, n: nat) -> Seq<A> {
    if items.len() <= n {
        items
    } else {
        items.skip(items.len() - n)
    }
}

/// Ring buffer that keeps the last `capacity` log lines of any level and separately records
/// error/fatal lines.
pub struct LogCapture {
    errors: Vec<String>,
    tail: VecDeque<String>,
    capacity: usize,
}

impl LogCapture {
    /// The recorded error lines, in order.
    pub closed spec fn errors(&self) -> Seq<Seq<char>> {
        texts(self.errors@)
    }

    /// The kept lines, the oldest first.
    pub closed spec fn tail(&self) -> Seq<Seq<char>> {
        texts(self.tail@)
    }

    /// How many lines are kept.
    pub closed spec fn capacity(&self) -> nat {
        self.capacity as nat
    }

    /// No more lines are kept than the capacity allows.
    pub open spec fn well_formed(&self) -> bool {
        self.tail().len() <= self.capacity()
    }

    /// A capture that has seen nothing.
    pub fn new(capacity: usize) -> (capture: LogCapture)
        ensures
            capture.errors() == Seq::<Seq<char>>::empty(),
            capture.tail() == Seq::<Seq<char>>::empty(),
            capture.capacity() == capacity,
            capture.well_formed(),
    {
        let capture = LogCapture { errors: Vec::new(), tail: VecDeque::new(), capacity };
        assert(capture.errors() =~= Seq::<Seq<char>>::empty());
        assert(capture.tail() =~= Seq::<Seq<char>>::empty());
        capture
    }

    /// Records one log line.
    pub fn push(&mut self, level: LogLevel, line: &str)
        requires
            old(self).well_formed(),
        ensures
            final(self).errors() == (if level.is_failure() {
                old(self).errors().push(line@)
            } else {
                old(self).errors()
            }),
            final(self).tail() == last_items(old(self).tail().push(line@), old(self).capacity()),
            final(self).capacity() == old(self).capacity(),
            final(self).well_formed(),
    {
        let ghost errors = self.errors();
        let ghost tail = self.tail();
        if level.is_error() {
            self.errors.push(line.to_owned());
            assert(self.errors() =~= errors.push(line@));
        }
        self.tail.push_back(line.to_owned());
        assert(self.tail() =~= tail.push(line@));
        if self.tail.len() > self.capacity {
            let _ = self.tail.pop_front();
            assert(self.tail() =~= last_items(tail.push(line@), self.capacity as nat));
        }
    }

    /// The collected diagnostics.
    pub fn finish(self) -> (diagnostics: FfmpegDiagnostics)
        ensures
            texts(diagnostics.errors@) == self.errors(),
            texts(diagnostics.tail@) == self.tail(),
    {
        let LogCapture { errors, tail, capacity: _ } = self;
        let ghost all = texts(tail@);
        let mut rest = tail;
        let mut lines: Vec<String> = Vec::new();
        while rest.len() > 0
            invariant
                texts(lines@) + texts(rest@) == all,
            decreases rest@.len(),
        {
            let ghost before = texts(lines@) + texts(rest@);
            match rest.pop_front() {
                Some(line) => {
                    lines.push(line);
                },
                None => {},
            }
            assert(texts(lines@) + texts(rest@) =~= before);
        }
        assert(texts(lines@) =~= all);
        FfmpegDiagnostics { errors, tail: lines }
    }
}

/// The lines that are kept after a whole list of lines was pushed one by one.
pub open spec fn kept_lines(lines: Seq<Seq<char>>, capacity: nat) -> Seq<Seq<char>>
    decreases lines.len(),
{
    if lines.len() == 0 {
        Seq::empty()
    } else {
        last_items(kept_lines(lines.drop_last(), capacity).push(lines.last()), capacity)
    }
}

/// Whatever was pushed, the last lines are kept, as many as the capacity allows.
pub proof fn law_last_lines_are_kept(lines: Seq<Seq<char>>, capacity: nat)
    ensures
        kept_lines(lines, capacity) == last_items(lines, capacity),
        kept_lines(lines, capacity).len() == (if lines.len() < capacity {
            lines.len()
        } else {
            capacity
        }),
        forall|i: int|
            0 <= i < kept_lines(lines, capacity).len() ==> #[trigger] kept_lines(lines, capacity)[i]
                == lines[lines.len() - kept_lines(lines, capacity).len() + i],
    decreases lines.len(),
{
    if lines.len() > 0 {
        law_last_lines_are_kept(lines.drop_last(), capacity);
        assert(kept_lines(lines, capacity) =~= last_items(lines, capacity));
    }
}

/// The error lines that are recorded after a whole list of lines was pushed one by one.
pub open spec fn recorded_errors(lines: Seq<(LogLevel, Seq<char>)>) -> Seq<Seq<char>>
    decreases lines.len(),
{
    if lines.len() == 0 {
        Seq::empty()
    } else {
        let before = recorded_errors(lines.drop_last());
        if lines.last().0.is_failure() {
            before.push(lines.last().1)
        } else {
            before
        }
    }
}

/// Every error or fatal line is recorded, and a line of another level never is.
pub proof fn law_errors_are_recorded(lines: Seq<(LogLevel, Seq<char>)>)
    ensures
        recorded_errors(lines) == lines.filter(
            |l: (LogLevel, Seq<char>)| l.0 == LogLevel::Error || l.0 == LogLevel::Fatal,
        ).map_values(|l: (LogLevel, Seq<char>)| l.1),
    decreases lines.len(),
{
    reveal(Seq::filter);
    let failing = |l: (LogLevel, Seq<char>)| l.0 == LogLevel::Error || l.0 == LogLevel::Fatal;
    let text = |l: (LogLevel, Seq<char>)| l.1;
    if lines.len() > 0 {
        law_errors_are_recorded(lines.drop_last());
        assert(recorded_errors(lines) =~= lines.filter(failing).map_values(text));
    } else {
        assert(recorded_errors(lines) =~= lines.filter(failing).map_values(text));
    }
}

/// What is shown of a failed process are the errors that it logged, all of them and nothing else; the
/// last lines are shown only where it logged none.
pub proof fn law_errors_are_shown_before_other_lines(
    lines: Seq<(LogLevel, Seq<char>)>,
    tail: Seq<Seq<char>>,
)
    ensures
        ({
            let failing = |l: (LogLevel, Seq<char>)|
                l.0 == LogLevel::Error || l.0 == LogLevel::Fatal;
            let shown = shown_lines(recorded_errors(lines), tail);
            &&& lines.filter(failing).len() > 0 ==> shown == lines.filter(failing).map_values(
                |l: (LogLevel, Seq<char>)| l.1,
            )
            &&& lines.filter(failing).len() == 0 ==> shown == tail
        }),
{
    law_errors_are_recorded(lines);
}

/// A line stands for a failure exactly where it was logged as an error or a fatal error.
pub proof fn law_failures_are_errors(level: LogLevel)
    ensures
        level.is_failure() <==> level is Error || level is Fatal,
{
}

} // verus!
