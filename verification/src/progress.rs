//! The two-line progress displays: labels, statistics and remaining time.
use vstd::prelude::*;
use vstd::string::*;

use crate::crop::{all_digits, digits_value, lemma_decimal_value};
use crate::text::{
    decimal,
    digit_char,
    padded_left,
    push_decimal,
    push_padded,
    push_repeated,
    repeated,
};

verus! {

/// The width that is taken for granted where the terminal tells none.
pub const DEFAULT_COLUMNS: u16 = 80;

/// The fewest columns that a label is cut down to.
pub const SHORTEST_LABEL: usize = 4;

/// The mark at the end of a label that was cut.
pub const ELLIPSIS: &'static str = "\u{2026}";

/// The number of terminal columns that a text takes up.
pub uninterp spec fn columns_of(text: Seq<char>) -> usize;

/// A text brought to a number of columns: cut with a mark at its end, or filled with spaces.
pub uninterp spec fn fitted_text(text: Seq<char>, width: usize, mark: Seq<char>) -> Seq<char>;

/// The character is a printable ASCII character or the ellipsis: it takes up one column.
pub open spec fn is_narrow(c: char) -> bool {
    ' ' <= c <= '~' || c == '\u{2026}'
}

/// Every character of the text takes up one column.
pub open spec fn is_narrow_text(text: Seq<char>) -> bool {
    forall|i: int| 0 <= i < text.len() ==> is_narrow(#[trigger] text[i])
}

/// `measure_text_width` of the `console` crate: the number of terminal columns of a text, not
/// counting escape codes. A text of printable ASCII characters and ellipses takes up one column for
/// each character.
#[verifier::external_body]
fn text_columns(text: &str) -> (columns: usize)
    ensures
        columns == columns_of(text@),
        is_narrow_text(text@) ==> columns == text@.len(),
{
    console::measure_text_width(text)
}

/// `pad_str` of the `console` crate, aligned left and with a truncation mark. A text that is not too
/// wide is filled with spaces on the right. One that is too wide is cut, and the mark is put at its
/// end; where each character takes up one column, as many characters stay as leave room for the
/// mark.
#[verifier::external_body]
fn fit_left(text: &str, width: usize, mark: &str) -> (fitted: String)
    ensures
        fitted@ == fitted_text(text@, width, mark@),
        columns_of(text@) <= width ==> fitted@ == text@ + repeated(
            ' ',
            (width - columns_of(text@)) as nat,
        ),
        is_narrow_text(text@) && is_narrow_text(mark@) && mark@.len() <= width < text@.len()
            ==> fitted@ == text@.take(width - mark@.len()) + mark@,
{
    console::pad_str(text, width, console::Alignment::Left, Some(mark)).into_owned()
}

/// `Term::stderr` and `Term::size_checked` of the `console` crate: the columns of the terminal
/// behind the standard error stream, where there is one. The answer depends on the terminal, so
/// nothing is said of it.
#[verifier::external_body]
fn terminal_columns() -> (columns: Option<u16>) {
    console::Term::stderr().size_checked().map(|size| size.1)
}

/// The number of columns that a progress line is to span.
pub open spec fn line_width(columns: Option<u16>) -> int {
    match columns {
        Some(n) => n as int,
        None => DEFAULT_COLUMNS as int,
    }
}

/// The columns left to a label that has to be cut.
pub open spec fn cut_width(stats_columns: int, width: int) -> usize {
    if width - stats_columns - 1 > SHORTEST_LABEL {
        (width - stats_columns - 1) as usize
    } else {
        SHORTEST_LABEL
    }
}

/// The first line of a progress display: the label on the left and the statistics on the right, with
/// at least one space between them. The gap is filled so that the line spans the terminal; a label
/// that leaves no room is cut with an ellipsis.
pub open spec fn progress_line(label: Seq<char>, stats: Seq<char>, columns: Option<u16>) -> Seq<
    char,
> {
    let width = line_width(columns);
    let taken = columns_of(label) + columns_of(stats) + 1;
    if taken > width {
        fitted_text(label, cut_width(columns_of(stats) as int, width), ELLIPSIS@) + " "@ + stats
    } else {
        label + repeated(' ', (width - taken) as nat) + " "@ + stats
    }
}

/// The line spans the terminal where each character takes up one column and the statistics leave
/// room for the shortest label.
pub open spec fn spans_terminal(
    line: Seq<char>,
    label: Seq<char>,
    stats: Seq<char>,
    columns: Option<u16>,
) -> bool {
    is_narrow_text(label) && is_narrow_text(stats) && stats.len() + 1 + SHORTEST_LABEL
        <= line_width(columns) ==> is_narrow_text(line) && line.len() == line_width(columns)
}

/// The first line of a progress display where each character takes up one column. A label that fits
/// stands whole, and spaces fill the gap to the statistics. One that does not fit is cut, and ends
/// with an ellipsis; only where the terminal is too narrow for the shortest label does the line
/// reach beyond it.
pub open spec fn narrow_line(label: Seq<char>, stats: Seq<char>, columns: Option<u16>) -> Seq<
    char,
> {
    let width = line_width(columns);
    let taken = label.len() + 1 + stats.len();
    let room = cut_width(stats.len() as int, width);
    if taken <= width {
        label + repeated(' ', (width - taken) as nat) + " "@ + stats
    } else if label.len() <= room {
        label + repeated(' ', (room - label.len()) as nat) + " "@ + stats
    } else {
        label.take(room - 1) + ELLIPSIS@ + " "@ + stats
    }
}

/// The line is spelled out where each character takes up one column.
pub open spec fn spells_out(
    line: Seq<char>,
    label: Seq<char>,
    stats: Seq<char>,
    columns: Option<u16>,
) -> bool {
    is_narrow_text(label) && is_narrow_text(stats) ==> line == narrow_line(label, stats, columns)
}

/// Formats the first line of a two-line progress display for a terminal with this many columns.
pub fn fit_progress_label(label: &str, stats: &str, columns: Option<u16>) -> (line: String)
    ensures
        line@ == progress_line(label@, stats@, columns),
        spans_terminal(line@, label@, stats@, columns),
        spells_out(line@, label@, stats@, columns),
{
    let width: u16 = match columns {
        Some(n) => n,
        None => DEFAULT_COLUMNS,
    };
    let label_columns: usize = text_columns(label);
    let stats_columns: usize = text_columns(stats);
    proof {
        reveal_strlit("\u{2026}");
        reveal_strlit(" ");
    }
    let mut line;
    if label_columns as u128 + stats_columns as u128 + 1 > width as u128 {
        let left: usize = if stats_columns < width as usize {
            width as usize - stats_columns - 1
        } else {
            0
        };
        let cut: usize = if left > SHORTEST_LABEL {
            left
        } else {
            SHORTEST_LABEL
        };
        line = fit_left(label, cut, ELLIPSIS);
    } else {
        line = label.to_owned();
        push_repeated(&mut line, ' ', width as usize - label_columns - stats_columns - 1);
    }
    line.append(" ");
    line.append(stats);
    line
}

/// Formats the first line of a two-line progress display: the label on the left and the statistics
/// on the right, filling the gap so that the line spans the terminal width. The label is truncated
/// with an ellipsis when both parts cannot fit.
pub fn progress_label(label: &str, stats: &str) -> (line: String)
    ensures
        exists|columns: Option<u16>|
            line@ == #[trigger] progress_line(label@, stats@, columns) && spans_terminal(
                line@,
                label@,
                stats@,
                columns,
            ) && spells_out(line@, label@, stats@, columns),
{
    fit_progress_label(label, stats, terminal_columns())
}

/// A number with at least two digits.
pub open spec fn two_digits(n: nat) -> Seq<char> {
    padded_left(decimal(n), 2, '0')
}

/// A duration as hours, minutes and seconds.
pub open spec fn clock_text(seconds: nat) -> Seq<char> {
    two_digits(seconds / 3600) + ":"@ + two_digits((seconds % 3600) / 60) + ":"@ + two_digits(
        seconds % 60,
    )
}

/// The remaining time, or a placeholder while no progress has been made.
pub open spec fn eta_text(remaining: nat, position: nat, total: nat) -> Seq<char> {
    if position == 0 || total == 0 {
        "--:--"@
    } else {
        clock_text(remaining)
    }
}

/// Formats the remaining time, estimated in seconds, as HH:MM:SS. Returns a placeholder while no
/// progress has been reported yet.
pub fn eta_string(remaining: u64, position: u64, total: u64) -> (eta: String)
    ensures
        eta@ == eta_text(remaining as nat, position as nat, total as nat),
{
    if position == 0 || total == 0 {
        return "--:--".to_owned();
    }
    let mut eta = String::new();
    push_padded(&mut eta, (remaining / 3600) as u128, 2, '0');
    assert(eta@ =~= two_digits(remaining as nat / 3600));
    eta.append(":");
    push_padded(&mut eta, ((remaining % 3600) / 60) as u128, 2, '0');
    eta.append(":");
    push_padded(&mut eta, (remaining % 60) as u128, 2, '0');
    eta
}

/// How much of the work is done, in percent; all of it where there is none.
pub open spec fn percent(done: nat, total: nat) -> nat {
    if total == 0 {
        100
    } else {
        done * 100 / total
    }
}

/// Appends a percentage, right-aligned in three columns.
fn push_percent(out: &mut String, done: u64, total: u64)
    ensures
        final(out)@ == old(out)@ + padded_left(decimal(percent(done as nat, total as nat)), 3, ' ')
            + "%"@,
{
    let percentage: u128 = if total == 0 {
        100
    } else {
        done as u128 * 100 / total as u128
    };
    push_padded(out, percentage, 3, ' ');
    out.append("%");
}

/// The statistics of a scan at a number of completed files.
pub open spec fn scan_stats_text(completed: nat, total: nat, remaining: nat) -> Seq<char> {
    padded_left(decimal(percent(completed, total)), 3, ' ') + "% "@ + decimal(completed) + "/"@
        + decimal(total) + " eta "@ + eta_text(remaining, completed, total)
}

/// The right-hand statistics for the scan progress bar at a given number of completed files, with
/// the estimated number of seconds that remain.
pub fn scan_stats(completed: usize, total: usize, remaining: u64) -> (stats: String)
    ensures
        stats@ == scan_stats_text(completed as nat, total as nat, remaining as nat),
{
    let mut stats = String::new();
    proof {
        reveal_strlit("%");
        reveal_strlit(" ");
        reveal_strlit("% ");
        assert("%"@ + " "@ =~= "% "@);
    }
    push_percent(&mut stats, completed as u64, total as u64);
    stats.append(" ");
    assert(stats@ =~= padded_left(decimal(percent(completed as nat, total as nat)), 3, ' ')
        + "% "@);
    push_decimal(&mut stats, completed as u128);
    stats.append("/");
    push_decimal(&mut stats, total as u128);
    stats.append(" eta ");
    stats.append(eta_string(remaining, completed as u64, total as u64).as_str());
    stats
}

/// The statistics of an encode at a frame position.
pub open spec fn encode_stats_text(position: nat, total: nat, remaining: nat) -> Seq<char> {
    padded_left(
        decimal(
            percent(
                if position < total {
                    position
                } else {
                    total
                },
                total,
            ),
        ),
        3,
        ' ',
    ) + "% "@ + decimal(position) + "/"@ + decimal(total) + " frames eta "@ + eta_text(
        remaining,
        position,
        total,
    )
}

/// The right-hand statistics for the encode progress bar at a given frame position, with the
/// estimated number of seconds that remain.
pub fn encode_stats(position: u64, total: u64, remaining: u64) -> (stats: String)
    ensures
        stats@ == encode_stats_text(position as nat, total as nat, remaining as nat),
{
    let mut stats = String::new();
    proof {
        reveal_strlit("%");
        reveal_strlit(" ");
        reveal_strlit("% ");
        assert("%"@ + " "@ =~= "% "@);
    }
    let done: u64 = if position < total {
        position
    } else {
        total
    };
    push_percent(&mut stats, done, total);
    stats.append(" ");
    assert(stats@ =~= padded_left(decimal(percent(done as nat, total as nat)), 3, ' ') + "% "@);
    push_decimal(&mut stats, position as u128);
    stats.append("/");
    push_decimal(&mut stats, total as u128);
    stats.append(" frames eta ");
    stats.append(eta_string(remaining, position, total).as_str());
    stats
}

/// The message of an encode in progress: the label, with the statistics on the right where the
/// number of frames is known.
pub fn encode_message(label: &str, position: u64, length: Option<u64>, remaining: u64) -> (message:
    String)
    ensures
        match length {
            Some(total) if total > 0 => exists|columns: Option<u16>|
                message@ == #[trigger] progress_line(
                    label@,
                    encode_stats_text(position as nat, total as nat, remaining as nat),
                    columns,
                ) && spans_terminal(
                    message@,
                    label@,
                    encode_stats_text(position as nat, total as nat, remaining as nat),
                    columns,
                ) && spells_out(
                    message@,
                    label@,
                    encode_stats_text(position as nat, total as nat, remaining as nat),
                    columns,
                ),
            _ => message@ == label@,
        },
{
    match length {
        Some(total) => if total > 0 {
            let stats = encode_stats(position, total, remaining);
            progress_label(label, stats.as_str())
        } else {
            label.to_owned()
        },
        None => label.to_owned(),
    }
}

/// Whatever the width, a progress line ends with the statistics, set off by a space; a label that
/// fits stands unchanged at its start.
pub proof fn law_line_shows_label_and_stats(
    label: Seq<char>,
    stats: Seq<char>,
    columns: Option<u16>,
)
    ensures
        ({
            let line = progress_line(label, stats, columns);
            let at = line.len() - stats.len();
            &&& at > 0
            &&& line.skip(at) == stats
            &&& line[at - 1] == ' '
            &&& columns_of(label) + columns_of(stats) + 1 <= line_width(columns) ==> line.take(
                label.len() as int,
            ) == label
        }),
{
    reveal_strlit(" ");
    let line = progress_line(label, stats, columns);
    assert(line.skip(line.len() - stats.len()) =~= stats);
    if columns_of(label) + columns_of(stats) + 1 <= line_width(columns) {
        assert(line.take(label.len() as int) =~= label);
    }
}

/// Where each character takes up one column and the statistics leave room for the shortest label, the
/// line fills the terminal: a label that fits stands whole with spaces behind it, and a longer one is
/// cut after as many characters as leave room for an ellipsis, a space and the statistics.
pub proof fn law_long_labels_end_with_an_ellipsis(
    label: Seq<char>,
    stats: Seq<char>,
    columns: Option<u16>,
)
    requires
        is_narrow_text(label),
        is_narrow_text(stats),
        stats.len() + 1 + SHORTEST_LABEL <= line_width(columns),
    ensures
        narrow_line(label, stats, columns) == (if label.len() + 1 + stats.len() <= line_width(
            columns,
        ) {
            label + repeated(' ', (line_width(columns) - label.len() - 1 - stats.len()) as nat)
                + " "@ + stats
        } else {
            label.take(line_width(columns) - stats.len() - 2) + ELLIPSIS@ + " "@ + stats
        }),
        narrow_line(label, stats, columns).len() == line_width(columns),
{
    reveal_strlit(" ");
    reveal_strlit("\u{2026}");
}

/// The clock shows the duration: the hours, then minutes and seconds below sixty.
pub proof fn law_clock_shows_the_duration(seconds: nat)
    ensures
        ({
            let h = seconds / 3600;
            let m = (seconds % 3600) / 60;
            let s = seconds % 60;
            &&& clock_text(seconds) == two_digits(h) + ":"@ + two_digits(m) + ":"@ + two_digits(s)
            &&& h * 3600 + m * 60 + s == seconds
            &&& m < 60
            &&& s < 60
        }),
{
}

/// Finished work is a hundred percent, work not begun is none, and no work in between is more than a
/// hundred.
pub proof fn law_percentages_are_bounded(done: nat, total: nat)
    requires
        done <= total,
        total > 0,
    ensures
        percent(done, total) <= 100,
        percent(total, total) == 100,
        percent(0, total) == 0,
        percent(done, total) == 100 ==> done == total,
{
    assert(done * 100 / total <= 100) by (nonlinear_arith)
        requires
            done <= total,
            total > 0,
    ;
    assert(total * 100 / total == 100) by (nonlinear_arith)
        requires
            total > 0,
    ;
    assert(0nat * 100 / total == 0) by (nonlinear_arith)
        requires
            total > 0,
    ;
    if done < total {
        assert(done * 100 / total < 100) by (nonlinear_arith)
            requires
                done < total,
        ;
    }
}

/// A line is as wide as the terminal, and eighty columns where there is none.
pub proof fn law_lines_are_as_wide_as_the_terminal(columns: u16)
    ensures
        line_width(Some(columns)) == columns,
        line_width(None) == 80,
{
}

/// Whatever the characters, a label and statistics that fit stand whole with only spaces between
/// them; otherwise the label is fitted, with an ellipsis, into the columns that the statistics and a
/// space leave, but into four at least.
pub proof fn law_labels_are_fitted_into_what_is_left(
    label: Seq<char>,
    stats: Seq<char>,
    columns: Option<u16>,
    room: usize,
)
    requires
        room == (if line_width(columns) - columns_of(stats) - 1 > 4 {
            line_width(columns) - columns_of(stats) - 1
        } else {
            4
        }),
    ensures
        columns_of(label) + columns_of(stats) + 1 > line_width(columns) ==> progress_line(
            label,
            stats,
            columns,
        ) == fitted_text(label, room, "\u{2026}"@) + " "@ + stats,
        columns_of(label) + columns_of(stats) + 1 <= line_width(columns) ==> progress_line(
            label,
            stats,
            columns,
        ) == label + repeated(
            ' ',
            (line_width(columns) - columns_of(label) - columns_of(stats) - 1) as nat,
        ) + " "@ + stats,
{
}

/// Two digits denote the number, and there are no fewer than two; below a hundred there are no more.
pub proof fn law_two_digits_denote_the_number(n: nat)
    ensures
        all_digits(two_digits(n)),
        digits_value(two_digits(n)) == n,
        two_digits(n).len() >= 2,
        n < 100 ==> two_digits(n).len() == 2,
        n >= 100 ==> two_digits(n) == decimal(n),
{
    lemma_decimal_value(n);
    if n < 10 {
        let zero = seq!['0'];
        assert(two_digits(n) =~= zero.push(digit_char(n)));
        assert(two_digits(n).drop_last() == zero);
        assert(zero.drop_last() == Seq::<char>::empty());
        assert(digits_value(Seq::<char>::empty()) == 0);
        assert(digits_value(zero) == 0);
    } else {
        lemma_decimal_value(n / 10);
        assert(decimal(n).len() == decimal(n / 10).len() + 1);
        if n >= 100 {
            lemma_decimal_value(n / 100);
            assert(decimal(n / 10).len() == decimal(n / 10 / 10).len() + 1);
        }
    }
}

/// The remaining time is shown once there is progress, and a placeholder until then.
pub proof fn law_remaining_time_is_shown_once_there_is_progress(
    remaining: nat,
    position: nat,
    total: nat,
)
    ensures
        position == 0 || total == 0 ==> eta_text(remaining, position, total) == "--:--"@,
        position > 0 && total > 0 ==> eta_text(remaining, position, total) == two_digits(
            remaining / 3600,
        ) + ":"@ + two_digits(remaining / 60 % 60) + ":"@ + two_digits(remaining % 60),
{
    assert((remaining % 3600) / 60 == remaining / 60 % 60) by (nonlinear_arith);
}

/// A percentage is the largest whole number of hundredths that are done; all is done where there is
/// nothing to do.
pub proof fn law_percentage_is_rounded_down(done: nat, total: nat, hundredths: nat)
    ensures
        total == 0 ==> percent(done, total) == 100,
        total > 0 ==> percent(done, total) * total <= done * 100 < (percent(done, total) + 1)
            * total,
        total > 0 && hundredths * total <= done * 100 < (hundredths + 1) * total ==> percent(
            done,
            total,
        ) == hundredths,
{
    if total > 0 {
        let p = done * 100 / total;
        assert(p * total <= done * 100 < (p + 1) * total) by (nonlinear_arith)
            requires
                total > 0,
                p == done * 100 / total,
        ;
        if hundredths * total <= done * 100 < (hundredths + 1) * total {
            assert(p == hundredths) by (nonlinear_arith)
                requires
                    total > 0,
                    p * total <= done * 100 < (p + 1) * total,
                    hundredths * total <= done * 100 < (hundredths + 1) * total,
            ;
        }
    }
}

/// The statistics of a scan show how many hundredths of the files are done, how many files of how
/// many, and the remaining time.
pub proof fn law_scan_statistics_show_the_files(
    completed: nat,
    total: nat,
    remaining: nat,
    hundredths: nat,
)
    requires
        total > 0 ==> hundredths * total <= completed * 100 < (hundredths + 1) * total,
        total == 0 ==> hundredths == 100,
    ensures
        scan_stats_text(completed, total, remaining) == padded_left(decimal(hundredths), 3, ' ')
            + "% "@ + decimal(completed) + "/"@ + decimal(total) + " eta "@ + (if completed == 0
            || total == 0 {
            "--:--"@
        } else {
            clock_text(remaining)
        }),
{
    law_percentage_is_rounded_down(completed, total, hundredths);
}

/// The statistics of an encode show how many hundredths of the frames are done, a hundred at most,
/// how many frames of how many, and the remaining time.
pub proof fn law_encode_statistics_show_the_frames(
    position: nat,
    total: nat,
    remaining: nat,
    hundredths: nat,
)
    requires
        position < total ==> hundredths * total <= position * 100 < (hundredths + 1) * total,
        position >= total ==> hundredths == 100,
    ensures
        encode_stats_text(position, total, remaining) == padded_left(decimal(hundredths), 3, ' ')
            + "% "@ + decimal(position) + "/"@ + decimal(total) + " frames eta "@ + (if position
            == 0 || total == 0 {
            "--:--"@
        } else {
            clock_text(remaining)
        }),
{
    if position < total {
        law_percentage_is_rounded_down(position, total, hundredths);
    } else if total > 0 {
        law_percentages_are_bounded(total, total);
    }
}

} // verus!
