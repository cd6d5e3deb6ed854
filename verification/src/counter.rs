//! Counting the crop values that ffmpeg reports, and selecting one of them.
use regex::Regex;
use vstd::prelude::*;

use crate::crop::{all_digits, crop_text, is_digit, lemma_decimal_value};
use crate::text::{decimal, same_text, text_of};

verus! {

/// The pattern of a crop value in the log lines of ffmpeg's cropdetect filter.
pub const CROP_PATTERN: &'static str = "crop=(\\d+:\\d+:\\d+:\\d+)";

/// The text of the first capture group in the leftmost match of a regular expression.
pub uninterp spec fn first_group_of(pattern: Seq<char>, text: Seq<char>) -> Option<Seq<char>>;

/// Four runs of the digits `0` to `9`, joined by colons.
pub open spec fn is_quad(s: Seq<char>) -> bool {
    exists|a: Seq<char>, b: Seq<char>, c: Seq<char>, d: Seq<char>|
        #![trigger quad(a, b, c, d)]
        {
            &&& s == quad(a, b, c, d)
            &&& a.len() > 0 && all_digits(a)
            &&& b.len() > 0 && all_digits(b)
            &&& c.len() > 0 && all_digits(c)
            &&& d.len() > 0 && all_digits(d)
        }
}

/// Four texts joined by colons.
pub open spec fn quad(a: Seq<char>, b: Seq<char>, c: Seq<char>, d: Seq<char>) -> Seq<char> {
    a + seq![':'] + b + seq![':'] + c + seq![':'] + d
}

/// The text `crop=` stands at position `i` of the line.
pub open spec fn marker_at(line: Seq<char>, i: int) -> bool {
    &&& 0 <= i
    &&& i + "crop="@.len() <= line.len()
    &&& line.subrange(i, i + "crop="@.len()) == "crop="@
}

/// The text `crop=` stands at position `i` of the line, directly followed by the value `v`, which
/// is four runs of digits joined by colons and does not go on with another digit.
pub open spec fn crop_at(line: Seq<char>, i: int, v: Seq<char>) -> bool {
    let start = i + "crop="@.len();
    let end = start + v.len();
    &&& marker_at(line, i)
    &&& end <= line.len()
    &&& line.subrange(start, end) == v
    &&& is_quad(v)
    &&& end < line.len() ==> !is_digit(line[end])
}

/// The value `v` stands at position `i`, and no crop value stands further left.
pub open spec fn leftmost_crop_at(line: Seq<char>, i: int, v: Seq<char>) -> bool {
    &&& crop_at(line, i, v)
    &&& forall|j: int, w: Seq<char>| j < i ==> !(#[trigger] crop_at(line, j, w))
}

/// `found` is the crop value that stands leftmost in the line, if there is one.
pub open spec fn is_leftmost_crop(line: Seq<char>, found: Option<Seq<char>>) -> bool {
    match found {
        Some(v) => exists|i: int| #[trigger] leftmost_crop_at(line, i, v),
        None => forall|j: int, w: Seq<char>| !(#[trigger] crop_at(line, j, w)),
    }
}

/// Every character of the line is an ASCII character.
pub open spec fn is_ascii_line(line: Seq<char>) -> bool {
    forall|i: int| 0 <= i < line.len() ==> (#[trigger] line[i] as nat) < 128
}

/// `Regex::new` and `Regex::captures` of the `regex` crate: the first capture group in the leftmost
/// match of the pattern in the text. The digits of the pattern are the decimal digits of Unicode,
/// so the group is spelled out here only for texts of ASCII characters, whose only digits are
/// `0` to `9`; of other texts the group is the same in every search.
#[verifier::external_body]
fn first_group(pattern: &str, text: &str) -> (group: Option<String>)
    requires
        pattern@ == CROP_PATTERN@,
    ensures
        text_of(group) == first_group_of(pattern@, text@),
        is_ascii_line(text@) ==> is_leftmost_crop(text@, text_of(group)),
{
    let expression = Regex::new(pattern).unwrap();
    expression.captures(text).map(|found| found[1].to_string())
}

/// The crop value that a log line reports.
pub open spec fn reported(line: Seq<char>) -> Option<Seq<char>> {
    first_group_of(CROP_PATTERN@, line)
}

/// The crop value that a log line reports, if it reports one.
pub fn crop_value(line: &str) -> (value: Option<String>)
    ensures
        text_of(value) == reported(line@),
        is_ascii_line(line@) ==> is_leftmost_crop(line@, text_of(value)),
{
    first_group(CROP_PATTERN, line)
}

/// The texts and counts of a list of counted values.
pub open spec fn entries(values: Seq<(String, u32)>) -> Seq<(Seq<char>, nat)> {
    Seq::new(values.len(), |i: int| (values[i].0@, values[i].1 as nat))
}

/// The entry at `i` has the highest count, and no entry before it has that count too.
pub open spec fn is_first_maximum(values: Seq<(Seq<char>, nat)>, i: int) -> bool {
    &&& 0 <= i < values.len()
    &&& forall|j: int| 0 <= j < values.len() ==> #[trigger] values[j].1 <= values[i].1
    &&& forall|j: int| 0 <= j < i ==> #[trigger] values[j].1 < values[i].1
}

/// `selected` is the value with the highest count, the first of them where several share it; it is
/// absent exactly where there are no values.
pub open spec fn is_selection(
    values: Seq<(Seq<char>, nat)>,
    selected: Option<Seq<char>>,
) -> bool {
    match selected {
        Some(v) => exists|i: int| #[trigger] is_first_maximum(values, i) && v == values[i].0,
        None => values.len() == 0,
    }
}

/// Selects the most frequently reported crop value; ties go to the value observed first.
pub fn select_crop(values: &[(String, u32)]) -> (selected: Option<String>)
    ensures
        is_selection(entries(values@), text_of(selected)),
{
    let ghost all = entries(values@);
    if values.len() == 0 {
        return None;
    }
    let mut best: usize = 0;
    for i in 1..values.len()
        invariant
            0 <= best < i,
            values@.len() > 0,
            all == entries(values@),
            forall|j: int| 0 <= j < i ==> #[trigger] all[j].1 <= all[best as int].1,
            forall|j: int| 0 <= j < best ==> #[trigger] all[j].1 < all[best as int].1,
    {
        assert(all[i as int].1 == values@[i as int].1);
        if values[i].1 > values[best].1 {
            best = i;
        }
    }
    assert(is_first_maximum(all, best as int));
    Some(values[best].0.clone())
}

/// Whether the value has been counted.
pub open spec fn is_counted(counts: Seq<(Seq<char>, nat)>, value: Seq<char>) -> bool {
    exists|i: int| 0 <= i < counts.len() && (#[trigger] counts[i]).0 == value
}

/// The counts after one more report of the value: its count goes up by one, or it is added at the
/// end with the count one.
pub open spec fn counted(counts: Seq<(Seq<char>, nat)>, value: Seq<char>) -> Seq<(Seq<char>, nat)> {
    if is_counted(counts, value) {
        Seq::new(
            counts.len(),
            |i: int|
                if counts[i].0 == value {
                    (value, counts[i].1 + 1)
                } else {
                    counts[i]
                },
        )
    } else {
        counts.push((value, 1))
    }
}

/// The counts after a log line that reports a value, or none.
pub open spec fn counted_report(
    counts: Seq<(Seq<char>, nat)>,
    report: Option<Seq<char>>,
) -> Seq<(Seq<char>, nat)> {
    match report {
        Some(value) => counted(counts, value),
        None => counts,
    }
}

/// One more report of the value can be counted.
pub open spec fn has_room_for(counts: Seq<(Seq<char>, nat)>, report: Option<Seq<char>>) -> bool {
    report matches Some(value) ==> forall|i: int|
        0 <= i < counts.len() && (#[trigger] counts[i]).0 == value ==> counts[i].1 < u32::MAX
}

/// No value is listed twice, and every value has been reported.
pub open spec fn is_tally(counts: Seq<(Seq<char>, nat)>) -> bool {
    &&& forall|i: int, j: int|
        0 <= i < j < counts.len() ==> (#[trigger] counts[i]).0 != (#[trigger] counts[j]).0
    &&& forall|i: int| 0 <= i < counts.len() ==> (#[trigger] counts[i]).1 >= 1
}

/// Streaming counter for the `crop=W:H:X:Y` values reported by ffmpeg's cropdetect filter. Values
/// are kept in first-seen order so that `select_crop` can break ties deterministically.
pub struct CropCounter {
    counts: Vec<(String, u32)>,
}

impl View for CropCounter {
    type V = Seq<(Seq<char>, nat)>;

    closed spec fn view(&self) -> Seq<(Seq<char>, nat)> {
        entries(self.counts@)
    }
}

impl CropCounter {
    /// The counter lists each value once, with the number of its reports.
    pub open spec fn well_formed(&self) -> bool {
        is_tally(self@)
    }

    /// A counter that has seen nothing.
    pub fn new() -> (counter: CropCounter)
        ensures
            counter@ == Seq::<(Seq<char>, nat)>::empty(),
            counter.well_formed(),
    {
        let counter = CropCounter { counts: Vec::new() };
        assert(counter@ =~= Seq::<(Seq<char>, nat)>::empty());
        counter
    }

    /// The position of a value among the counted ones.
    fn position(&self, value: &str) -> (position: Option<usize>)
        ensures
            match position {
                Some(i) => i < self@.len() && self@[i as int].0 == value@,
                None => !is_counted(self@, value@),
            },
    {
        for i in 0..self.counts.len()
            invariant
                forall|j: int| 0 <= j < i ==> (#[trigger] self@[j]).0 != value@,
        {
            assert(self@[i as int].0 == self.counts@[i as int].0@);
            if same_text(self.counts[i].0.as_str(), value) {
                return Some(i);
            }
        }
        assert(self@.len() == self.counts@.len());
        None
    }

    /// Counts one report, or leaves the counts as they are where the line reported nothing.
    pub fn count(&mut self, report: Option<String>)
        requires
            old(self).well_formed(),
            has_room_for(old(self)@, text_of(report)),
        ensures
            final(self)@ == counted_report(old(self)@, text_of(report)),
            final(self).well_formed(),
    {
        let ghost before = self@;
        match report {
            Some(value) => {
                match self.position(value.as_str()) {
                    Some(i) => {
                        assert(before[i as int].1 < u32::MAX);
                        let count: u32 = self.counts[i].1 + 1;
                        self.counts.set(i, (value, count));
                    },
                    None => {
                        self.counts.push((value, 1));
                    },
                }
                assert(self@ =~= counted(before, value@));
            },
            None => {},
        }
    }

    /// Counts the crop value that a log line reports, if it reports one.
    pub fn push(&mut self, line: &str)
        requires
            old(self).well_formed(),
            has_room_for(old(self)@, reported(line@)),
        ensures
            final(self)@ == counted_report(old(self)@, reported(line@)),
            final(self).well_formed(),
    {
        self.count(crop_value(line))
    }

    /// Whether every value can be counted once more.
    fn has_room(&self) -> (room: bool)
        ensures
            room == (forall|i: int| 0 <= i < self@.len() ==> (#[trigger] self@[i]).1 < u32::MAX),
    {
        for i in 0..self.counts.len()
            invariant
                forall|j: int| 0 <= j < i ==> (#[trigger] self@[j]).1 < u32::MAX,
        {
            assert(self@[i as int].1 == self.counts@[i as int].1);
            if self.counts[i].1 == u32::MAX {
                return false;
            }
        }
        assert(self@.len() == self.counts@.len());
        true
    }

    /// Counts the crop value that a log line reports, unless its count has reached the highest
    /// number it can hold; then nothing changes and the result is false.
    pub fn try_push(&mut self, line: &str) -> (pushed: bool)
        requires
            old(self).well_formed(),
        ensures
            pushed == has_room_for(old(self)@, reported(line@)),
            pushed ==> final(self)@ == counted_report(old(self)@, reported(line@)),
            !pushed ==> final(self)@ == old(self)@,
            final(self).well_formed(),
    {
        if self.has_room() {
            self.push(line);
            return true;
        }
        match crop_value(line) {
            Some(value) => {
                match self.position(value.as_str()) {
                    Some(i) => {
                        assert(self@[i as int].1 == self.counts@[i as int].1);
                        if self.counts[i].1 == u32::MAX {
                            return false;
                        }
                    },
                    None => {},
                }
            },
            None => {},
        }
        self.push(line);
        true
    }

    /// The counted values with their counts, in first-seen order.
    pub fn finish(self) -> (values: Vec<(String, u32)>)
        ensures
            entries(values@) == self@,
    {
        self.counts
    }
}

/// The counts after a whole list of reported values.
pub open spec fn tallied(values: Seq<Seq<char>>) -> Seq<(Seq<char>, nat)>
    decreases values.len(),
{
    if values.len() == 0 {
        Seq::empty()
    } else {
        counted(tallied(values.drop_last()), values.last())
    }
}

/// How often `value` occurs in `values`.
pub open spec fn occurrences(values: Seq<Seq<char>>, value: Seq<char>) -> nat {
    values.filter(|v: Seq<char>| v == value).len()
}

/// `i` is the first position of `value` in `values`.
pub open spec fn is_first_seen(values: Seq<Seq<char>>, value: Seq<char>, i: int) -> bool {
    &&& 0 <= i < values.len()
    &&& values[i] == value
    &&& forall|j: int| 0 <= j < i ==> #[trigger] values[j] != value
}

/// One more value at the end raises the number of its own occurrences alone.
proof fn lemma_occurrences_step(values: Seq<Seq<char>>, value: Seq<char>)
    requires
        values.len() > 0,
    ensures
        occurrences(values, value) == occurrences(values.drop_last(), value) + (if values.last()
            == value {
            1nat
        } else {
            0nat
        }),
{
    reveal(Seq::filter);
}

/// A value occurs at least once exactly where it is in the list.
proof fn lemma_occurs_where_contained(values: Seq<Seq<char>>, value: Seq<char>)
    ensures
        occurrences(values, value) > 0 <==> values.contains(value),
    decreases values.len(),
{
    reveal(Seq::filter);
    if values.len() > 0 {
        let rest = values.drop_last();
        lemma_occurrences_step(values, value);
        lemma_occurs_where_contained(rest, value);
        if values.contains(value) && values.last() != value {
            let i = choose|i: int| 0 <= i < values.len() && values[i] == value;
            assert(rest[i] == value);
        }
        if rest.contains(value) {
            let i = choose|i: int| 0 <= i < rest.len() && rest[i] == value;
            assert(values[i] == value);
        }
        if values.last() == value {
            assert(values[values.len() - 1] == value);
        }
    }
}

/// The tally of a list of values holds each value of the list once, with the number of its
/// occurrences, and nothing else.
pub proof fn law_tally_counts_occurrences(values: Seq<Seq<char>>)
    ensures
        is_tally(tallied(values)),
        forall|i: int|
            0 <= i < tallied(values).len() ==> (#[trigger] tallied(values)[i]).1 == occurrences(
                values,
                tallied(values)[i].0,
            ),
        forall|v: Seq<char>| #[trigger]
            is_counted(tallied(values), v) <==> values.contains(v),
    decreases values.len(),
{
    if values.len() == 0 {
        assert forall|v: Seq<char>| !(#[trigger] is_counted(tallied(values), v)) by {}
    } else {
        let rest = values.drop_last();
        let last = values.last();
        let before = tallied(rest);
        let after = tallied(values);
        law_tally_counts_occurrences(rest);
        lemma_occurs_where_contained(rest, last);
        assert(is_counted(before, last) <==> rest.contains(last));
        assert forall|i: int| 0 <= i < after.len() implies (#[trigger] after[i]).1 == occurrences(
            values,
            after[i].0,
        ) by {
            lemma_occurrences_step(values, after[i].0);
            if i < before.len() {
                assert(before[i].0 == after[i].0);
            }
        }
        assert forall|v: Seq<char>| #[trigger] is_counted(after, v) <==> values.contains(v) by {
            assert(is_counted(before, v) <==> rest.contains(v));
            if is_counted(after, v) {
                let i = choose|i: int| 0 <= i < after.len() && (#[trigger] after[i]).0 == v;
                if i < before.len() {
                    assert(before[i].0 == v);
                    let k = choose|k: int| 0 <= k < rest.len() && rest[k] == v;
                    assert(values[k] == v);
                } else {
                    assert(values[values.len() - 1] == v);
                }
            }
            if values.contains(v) {
                let k = choose|k: int| 0 <= k < values.len() && values[k] == v;
                if k < rest.len() {
                    assert(rest[k] == v);
                    let i = choose|i: int| 0 <= i < before.len() && (#[trigger] before[i]).0 == v;
                    assert(after[i].0 == v);
                } else if is_counted(before, last) {
                    let i = choose|i: int|
                        0 <= i < before.len() && (#[trigger] before[i]).0 == last;
                    assert(after[i].0 == v);
                } else {
                    assert(after[before.len() as int].0 == v);
                }
            }
        }
    }
}

/// The tally keeps the values in the order in which they were first seen.
pub proof fn law_tally_keeps_first_seen_order(
    values: Seq<Seq<char>>,
    i: int,
    j: int,
    first_i: int,
    first_j: int,
)
    requires
        0 <= i < j < tallied(values).len(),
        is_first_seen(values, tallied(values)[i].0, first_i),
        is_first_seen(values, tallied(values)[j].0, first_j),
    ensures
        first_i < first_j,
    decreases values.len(),
{
    let rest = values.drop_last();
    let before = tallied(rest);
    let after = tallied(values);
    law_tally_counts_occurrences(rest);
    let vi = after[i].0;
    assert(i < before.len());
    assert(before[i].0 == vi);
    assert(is_counted(before, vi));
    let k = choose|k: int| 0 <= k < rest.len() && rest[k] == vi;
    assert(values[k] == vi);
    assert(first_i <= k);
    assert(is_first_seen(rest, vi, first_i)) by {
        assert forall|m: int| 0 <= m < first_i implies #[trigger] rest[m] != vi by {
            assert(values[m] != vi);
        }
    }
    if j < before.len() {
        let vj = after[j].0;
        assert(before[j].0 == vj);
        assert(is_counted(before, vj));
        let n = choose|n: int| 0 <= n < rest.len() && rest[n] == vj;
        assert(values[n] == vj);
        assert(first_j <= n);
        assert(is_first_seen(rest, vj, first_j)) by {
            assert forall|m: int| 0 <= m < first_j implies #[trigger] rest[m] != vj by {
                assert(values[m] != vj);
            }
        }
        law_tally_keeps_first_seen_order(rest, i, j, first_i, first_j);
    } else {
        let vj = after[j].0;
        assert(vj == values.last());
        assert(!is_counted(before, vj));
        if first_j < rest.len() {
            assert(rest[first_j] == vj);
            assert(rest.contains(vj));
        }
    }
}

/// Of a list of reported values, the one selected is reported at least as often as every other, and
/// was seen before every other that is reported as often. One is selected as soon as there is a
/// report.
pub proof fn law_most_reported_value_is_selected(
    values: Seq<Seq<char>>,
    selected: Option<Seq<char>>,
)
    requires
        is_selection(tallied(values), selected),
    ensures
        selected is None <==> values.len() == 0,
        selected matches Some(v) ==> values.contains(v) && forall|w: Seq<char>| #[trigger]
            occurrences(values, w) <= occurrences(values, v),
        selected matches Some(v) ==> forall|w: Seq<char>, i: int, j: int|
            #![trigger is_first_seen(values, v, i), is_first_seen(values, w, j)]
            w != v && occurrences(values, w) == occurrences(values, v) && is_first_seen(
                values,
                v,
                i,
            ) && is_first_seen(values, w, j) ==> i < j,
{
    let all = tallied(values);
    law_tally_counts_occurrences(values);
    if values.len() > 0 {
        assert(values.contains(values[0]));
        assert(is_counted(all, values[0]));
    }
    if let Some(v) = selected {
        let best = choose|i: int| #[trigger] is_first_maximum(all, i) && v == all[i].0;
        assert(is_counted(all, v)) by {
            assert(all[best].0 == v);
        }
        assert forall|w: Seq<char>| #[trigger] occurrences(values, w) <= occurrences(values, v) by {
            lemma_occurs_where_contained(values, w);
            if values.contains(w) {
                assert(is_counted(all, w));
                let k = choose|k: int| 0 <= k < all.len() && (#[trigger] all[k]).0 == w;
                assert(all[k].1 <= all[best].1);
            }
        }
        assert forall|w: Seq<char>, i: int, j: int|
            #![trigger is_first_seen(values, v, i), is_first_seen(values, w, j)]
            w != v && occurrences(values, w) == occurrences(values, v) && is_first_seen(
                values,
                v,
                i,
            ) && is_first_seen(values, w, j) implies i < j by {
            assert(values.contains(w));
            assert(is_counted(all, w));
            let k = choose|k: int| 0 <= k < all.len() && (#[trigger] all[k]).0 == w;
            assert(all[k].1 == all[best].1);
            assert(k > best);
            law_tally_keeps_first_seen_order(values, best, k, i, j);
        }
    }
}

/// The values that a list of log lines reports, in order.
pub open spec fn reports_of(lines: Seq<Seq<char>>) -> Seq<Seq<char>>
    decreases lines.len(),
{
    if lines.len() == 0 {
        Seq::empty()
    } else {
        let before = reports_of(lines.drop_last());
        match reported(lines.last()) {
            Some(value) => before.push(value),
            None => before,
        }
    }
}

/// The counts after a list of log lines, pushed one by one into a new counter.
pub open spec fn counts_after(lines: Seq<Seq<char>>) -> Seq<(Seq<char>, nat)>
    decreases lines.len(),
{
    if lines.len() == 0 {
        Seq::empty()
    } else {
        counted_report(counts_after(lines.drop_last()), reported(lines.last()))
    }
}

/// Pushing log lines one by one tallies the values that they report.
pub proof fn law_pushed_lines_are_tallied(lines: Seq<Seq<char>>)
    ensures
        counts_after(lines) == tallied(reports_of(lines)),
    decreases lines.len(),
{
    if lines.len() > 0 {
        law_pushed_lines_are_tallied(lines.drop_last());
        match reported(lines.last()) {
            Some(value) => {
                assert(reports_of(lines).drop_last() == reports_of(lines.drop_last()));
            },
            None => {},
        }
    }
}

/// The characters of four texts joined by colons.
proof fn lemma_quad_chars(a: Seq<char>, b: Seq<char>, c: Seq<char>, d: Seq<char>)
    ensures
        quad(a, b, c, d).len() == a.len() + b.len() + c.len() + d.len() + 3,
        forall|i: int| 0 <= i < a.len() ==> quad(a, b, c, d)[i] == #[trigger] a[i],
        quad(a, b, c, d)[a.len() as int] == ':',
        forall|i: int|
            0 <= i < b.len() ==> quad(a, b, c, d)[a.len() + 1 + i] == #[trigger] b[i],
        quad(a, b, c, d)[(a.len() + 1 + b.len()) as int] == ':',
        forall|i: int|
            0 <= i < c.len() ==> quad(a, b, c, d)[a.len() + b.len() + 2 + i] == #[trigger] c[i],
        quad(a, b, c, d)[(a.len() + b.len() + 2 + c.len()) as int] == ':',
        forall|i: int|
            0 <= i < d.len() ==> quad(a, b, c, d)[a.len() + b.len() + c.len() + 3 + i]
                == #[trigger] d[i],
{
}

/// Of two crop values at the same position of a line, neither is longer.
proof fn lemma_crop_at_is_not_longer(line: Seq<char>, i: int, v: Seq<char>, w: Seq<char>)
    requires
        crop_at(line, i, v),
        crop_at(line, i, w),
    ensures
        v.len() <= w.len(),
{
    let start = i + "crop="@.len();
    let (a, b, c, d) = choose|a: Seq<char>, b: Seq<char>, c: Seq<char>, d: Seq<char>|
        #![trigger quad(a, b, c, d)]
        {
            &&& v == quad(a, b, c, d)
            &&& a.len() > 0 && all_digits(a)
            &&& b.len() > 0 && all_digits(b)
            &&& c.len() > 0 && all_digits(c)
            &&& d.len() > 0 && all_digits(d)
        };
    let (p, q, r, t) = choose|p: Seq<char>, q: Seq<char>, r: Seq<char>, t: Seq<char>|
        #![trigger quad(p, q, r, t)]
        {
            &&& w == quad(p, q, r, t)
            &&& p.len() > 0 && all_digits(p)
            &&& q.len() > 0 && all_digits(q)
            &&& r.len() > 0 && all_digits(r)
            &&& t.len() > 0 && all_digits(t)
        };
    lemma_quad_chars(a, b, c, d);
    lemma_quad_chars(p, q, r, t);
    assert forall|k: int| 0 <= k < v.len() implies #[trigger] v[k] == line[start + k] by {
        assert(line.subrange(start, start + v.len())[k] == line[start + k]);
    }
    assert forall|k: int| 0 <= k < w.len() implies #[trigger] w[k] == line[start + k] by {
        assert(line.subrange(start, start + w.len())[k] == line[start + k]);
    }
    if a.len() < p.len() {
        assert(w[a.len() as int] == p[a.len() as int]);
        assert(v[a.len() as int] == ':');
    } else if p.len() < a.len() {
        assert(v[p.len() as int] == a[p.len() as int]);
        assert(w[p.len() as int] == ':');
    }
    if b.len() < q.len() {
        assert(w[(p.len() + 1 + b.len()) as int] == q[b.len() as int]);
        assert(v[(a.len() + 1 + b.len()) as int] == ':');
    } else if q.len() < b.len() {
        assert(v[(a.len() + 1 + q.len()) as int] == b[q.len() as int]);
        assert(w[(p.len() + 1 + q.len()) as int] == ':');
    }
    if c.len() < r.len() {
        assert(w[(p.len() + q.len() + 2 + c.len()) as int] == r[c.len() as int]);
        assert(v[(a.len() + b.len() + 2 + c.len()) as int] == ':');
    } else if r.len() < c.len() {
        assert(v[(a.len() + b.len() + 2 + r.len()) as int] == c[r.len() as int]);
        assert(w[(p.len() + q.len() + 2 + r.len()) as int] == ':');
    }
    if t.len() < d.len() {
        assert(v[(a.len() + b.len() + c.len() + 3 + t.len()) as int] == d[t.len() as int]);
        assert(v[w.len() as int] == line[start + w.len()]);
        assert(is_digit(line[start + w.len()]));
    }
}

/// A line has at most one leftmost crop value.
pub proof fn law_leftmost_crop_is_unique(
    line: Seq<char>,
    first: Option<Seq<char>>,
    second: Option<Seq<char>>,
)
    requires
        is_leftmost_crop(line, first),
        is_leftmost_crop(line, second),
    ensures
        first == second,
{
    match (first, second) {
        (Some(v), Some(w)) => {
            let i = choose|i: int| #[trigger] leftmost_crop_at(line, i, v);
            let k = choose|k: int| #[trigger] leftmost_crop_at(line, k, w);
            assert(i == k);
            lemma_crop_at_is_not_longer(line, i, v, w);
            lemma_crop_at_is_not_longer(line, i, w, v);
            assert(v == w);
        },
        _ => {},
    }
}

/// A line that holds `crop=W:H:X:Y`, not followed by another digit, and no `crop=` before that,
/// reports `W:H:X:Y`.
pub proof fn law_line_reports_its_crop(
    prefix: Seq<char>,
    width: u32,
    height: u32,
    x: u32,
    y: u32,
    rest: Seq<char>,
    found: Option<Seq<char>>,
)
    requires
        is_leftmost_crop(prefix + "crop="@ + crop_text(width, height, x, y) + rest, found),
        rest.len() > 0 ==> !('0' <= rest[0] <= '9'),
        forall|i: int|
            i < prefix.len() ==> !(#[trigger] marker_at(
                prefix + "crop="@ + crop_text(width, height, x, y) + rest,
                i,
            )),
    ensures
        found == Some(crop_text(width, height, x, y)),
{
    let value = crop_text(width, height, x, y);
    let line = prefix + "crop="@ + value + rest;
    let at = prefix.len() as int;
    lemma_decimal_value(width as nat);
    lemma_decimal_value(height as nat);
    lemma_decimal_value(x as nat);
    lemma_decimal_value(y as nat);
    assert(value == quad(
        decimal(width as nat),
        decimal(height as nat),
        decimal(x as nat),
        decimal(y as nat),
    ));
    assert(is_quad(value));
    let end = at + "crop="@.len() + value.len();
    assert(line.subrange(at, at + "crop="@.len()) == "crop="@);
    assert(line.subrange(at + "crop="@.len(), end) == value);
    assert(end < line.len() ==> line[end] == rest[0]);
    assert(crop_at(line, at, value));
    assert forall|j: int, w: Seq<char>| j < at implies !(#[trigger] crop_at(line, j, w)) by {
        assert(!marker_at(line, j));
    }
    let expected = Some(value);
    assert(expected->0 == value);
    assert(leftmost_crop_at(line, at, expected->0));
    law_leftmost_crop_is_unique(line, found, expected);
}

/// A line without `crop=` reports nothing.
pub proof fn law_line_without_a_marker_reports_nothing(line: Seq<char>, found: Option<Seq<char>>)
    requires
        is_leftmost_crop(line, found),
        forall|i: int|
            0 <= i <= line.len() - "crop="@.len() ==> #[trigger] line.subrange(
                i,
                i + "crop="@.len(),
            ) != "crop="@,
    ensures
        found is None,
{
    if let Some(v) = found {
        let i = choose|i: int| #[trigger] leftmost_crop_at(line, i, v);
        assert(line.subrange(i, i + "crop="@.len()) == "crop="@);
    }
}

/// Whatever the line, the value that it reports is the one that the pattern finds.
pub proof fn law_reports_are_matches_of_the_pattern(line: Seq<char>)
    ensures
        reported(line) == first_group_of("crop=(\\d+:\\d+:\\d+:\\d+)"@, line),
{
}

/// Whatever the counts, the value selected has one that no other exceeds and that none before it
/// reaches; nothing is selected only from nothing.
pub proof fn law_selected_value_has_the_first_highest_count(
    values: Seq<(Seq<char>, nat)>,
    selected: Option<Seq<char>>,
)
    requires
        is_selection(values, selected),
    ensures
        selected is None <==> values.len() == 0,
        selected matches Some(v) ==> exists|i: int|
            {
                &&& 0 <= i < values.len()
                &&& (#[trigger] values[i]).0 == v
                &&& forall|j: int| 0 <= j < values.len() ==> (#[trigger] values[j]).1 <= values[i].1
                &&& forall|j: int| 0 <= j < i ==> (#[trigger] values[j]).1 < values[i].1
            },
{
    if let Some(v) = selected {
        let i = choose|i: int| #[trigger] is_first_maximum(values, i) && v == values[i].0;
        assert(values[i].0 == v);
    }
}

/// A value occurs at most as often as there are values.
proof fn lemma_occurrences_are_bounded(values: Seq<Seq<char>>, value: Seq<char>)
    ensures
        occurrences(values, value) <= values.len(),
    decreases values.len(),
{
    reveal(Seq::filter);
    if values.len() > 0 {
        lemma_occurrences_step(values, value);
        lemma_occurrences_are_bounded(values.drop_last(), value);
    }
}

/// There are at most as many reports as lines.
proof fn lemma_reports_are_bounded(lines: Seq<Seq<char>>)
    ensures
        reports_of(lines).len() <= lines.len(),
    decreases lines.len(),
{
    if lines.len() > 0 {
        lemma_reports_are_bounded(lines.drop_last());
    }
}

/// However the lines report, a counter has room for another line as long as it has seen fewer than
/// 4294967295 of them.
pub proof fn law_counter_has_room_for_many_lines(lines: Seq<Seq<char>>, line: Seq<char>)
    requires
        lines.len() < 0xffff_ffff,
    ensures
        has_room_for(counts_after(lines), reported(line)),
{
    let counts = counts_after(lines);
    let values = reports_of(lines);
    law_pushed_lines_are_tallied(lines);
    law_tally_counts_occurrences(values);
    lemma_reports_are_bounded(lines);
    assert forall|i: int| 0 <= i < counts.len() implies (#[trigger] counts[i]).1 < u32::MAX by {
        lemma_occurrences_are_bounded(values, counts[i].0);
    }
}

/// A counter has no room for a value exactly where the count of that value is 4294967295 already;
/// other values and lines that report nothing always have room.
pub proof fn law_counter_is_full_at_the_limit(counts: Seq<(Seq<char>, nat)>, value: Seq<char>)
    requires
        is_tally(counts),
    ensures
        has_room_for(counts, None),
        counted_report(counts, None) == counts,
        !is_counted(counts, value) ==> has_room_for(counts, Some(value)),
        forall|i: int|
            0 <= i < counts.len() && (#[trigger] counts[i]).0 == value ==> (has_room_for(
                counts,
                Some(value),
            ) <==> counts[i].1 < 0xffff_ffff),
{
}

/// The entries of counted values are the text and the count of each, in their order.
pub proof fn law_entries_are_texts_and_counts(values: Seq<(String, u32)>, i: int)
    requires
        0 <= i < values.len(),
    ensures
        entries(values).len() == values.len(),
        entries(values)[i] == (values[i].0@, values[i].1 as nat),
{
}

} // verus!
