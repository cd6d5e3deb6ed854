//! Crop values of the form `W:H:X:Y`: reading them and judging how much of the frame they trim.
use vstd::prelude::*;

use crate::text::{chars_of, decimal};

verus! {

/// The parts of `s` between the separators `sep`: one more than there are separators.
pub open spec fn split_on(s: Seq<char>, sep: char) -> Seq<Seq<char>>
    decreases s.len(),
{
    if s.len() == 0 {
        seq![Seq::<char>::empty()]
    } else {
        let before = split_on(s.drop_last(), sep);
        if s.last() == sep {
            before.push(Seq::<char>::empty())
        } else {
            before.drop_last().push(before.last().push(s.last()))
        }
    }
}

/// Whether `c` is one of the digits `0` to `9`.
pub open spec fn is_digit(c: char) -> bool {
    '0' <= c <= '9'
}

/// Whether `s` holds digits alone.
pub open spec fn all_digits(s: Seq<char>) -> bool {
    forall|i: int| 0 <= i < s.len() ==> is_digit(#[trigger] s[i])
}

/// The number that the digits in `s` denote in decimal notation.
pub open spec fn digits_value(s: Seq<char>) -> nat
    decreases s.len(),
{
    if s.len() == 0 {
        0
    } else {
        (digits_value(s.drop_last()) * 10 + (s.last() as nat - '0' as nat)) as nat
    }
}

/// The digits of a number: what follows an optional plus sign.
pub open spec fn unsigned_digits(s: Seq<char>) -> Seq<char> {
    if s.len() > 0 && s[0] == '+' {
        s.skip(1)
    } else {
        s
    }
}

/// The 32-bit number that `s` denotes: an optional plus sign, then one or more digits.
pub open spec fn parsed_number(s: Seq<char>) -> Option<u32> {
    let digits = unsigned_digits(s);
    if digits.len() > 0 && all_digits(digits) && digits_value(digits) <= u32::MAX {
        Some(digits_value(digits) as u32)
    } else {
        None
    }
}

/// The four numbers of a crop value `W:H:X:Y`: exactly four parts between colons, each of them a
/// number. Anything else is malformed.
pub open spec fn crop_numbers(crop: Seq<char>) -> Option<(u32, u32, u32, u32)> {
    let parts = split_on(crop, ':');
    if parts.len() == 4 {
        match (
            parsed_number(parts[0]),
            parsed_number(parts[1]),
            parsed_number(parts[2]),
            parsed_number(parts[3]),
        ) {
            (Some(width), Some(height), Some(x), Some(y)) => Some((width, height, x, y)),
            _ => None,
        }
    } else {
        None
    }
}

/// A rectangle of `width` by `height` pixels whose top left corner is at (`x`, `y`) lies in a frame
/// of the given size and leaves out at most `threshold` pixels at each of the four edges.
pub open spec fn trims_at_most(
    width: int,
    height: int,
    x: int,
    y: int,
    size: (u32, u32),
    threshold: u32,
) -> bool {
    &&& width <= size.0
    &&& height <= size.1
    &&& x <= threshold
    &&& size.0 - (x + width) <= threshold
    &&& y <= threshold
    &&& size.1 - (y + height) <= threshold
}

/// Whether a crop value is well formed and trims at most `threshold` pixels from every edge of a
/// frame of the given size.
pub open spec fn within_threshold(crop: Seq<char>, size: (u32, u32), threshold: u32) -> bool {
    match crop_numbers(crop) {
        Some((width, height, x, y)) => trims_at_most(
            width as int,
            height as int,
            x as int,
            y as int,
            size,
            threshold,
        ),
        None => false,
    }
}

/// A longer run of digits denotes a number at least as large.
proof fn lemma_value_of_prefix(s: Seq<char>, i: int)
    requires
        0 <= i <= s.len(),
        all_digits(s),
    ensures
        digits_value(s.take(i)) <= digits_value(s),
    decreases s.len() - i,
{
    if i == s.len() {
        assert(s.take(i) == s);
    } else {
        lemma_value_of_prefix(s, i + 1);
        assert(s.take(i + 1).drop_last() == s.take(i));
        assert(is_digit(s[i]));
        assert(digits_value(s.take(i)) <= digits_value(s.take(i + 1)));
    }
}

/// Reads a number from the characters of one part of a crop value.
fn parse_number(part: &Vec<char>) -> (number: Option<u32>)
    ensures
        number == parsed_number(part@),
{
    let start: usize = if part.len() > 0 && part[0] == '+' {
        1
    } else {
        0
    };
    let ghost digits = unsigned_digits(part@);
    if part.len() == start {
        return None;
    }
    let mut value: u64 = 0;
    let mut i: usize = start;
    while i < part.len()
        invariant
            start <= i <= part.len(),
            start < part.len(),
            digits == unsigned_digits(part@),
            digits == part@.skip(start as int),
            value == digits_value(digits.take(i - start)),
            value <= u32::MAX,
            forall|j: int| 0 <= j < i - start ==> is_digit(#[trigger] digits[j]),
        decreases part.len() - i,
    {
        let c = part[i];
        assert(c == digits[i - start]);
        if c < '0' || c > '9' {
            return None;
        }
        value = value * 10 + (c as u64 - '0' as u64);
        i = i + 1;
        assert(digits.take(i - start).drop_last() == digits.take(i - start - 1));
        if value > 0xffff_ffff {
            proof {
                if all_digits(digits) {
                    lemma_value_of_prefix(digits, i - start);
                }
            }
            return None;
        }
    }
    assert(digits.take(i - start) == digits);
    Some(value as u32)
}

/// The characters of a list of parts.
pub open spec fn part_views(parts: Seq<Vec<char>>) -> Seq<Seq<char>> {
    Seq::new(parts.len(), |i: int| parts[i]@)
}

/// The parts of a text between colons.
fn split_parts(text: &str) -> (parts: Vec<Vec<char>>)
    ensures
        part_views(parts@) == split_on(text@, ':'),
{
    let chars = chars_of(text);
    let mut parts: Vec<Vec<char>> = Vec::new();
    let mut part: Vec<char> = Vec::new();
    for i in 0..chars.len()
        invariant
            chars@ == text@,
            part_views(parts@).push(part@) == split_on(text@.take(i as int), ':'),
    {
        let c = chars[i];
        let ghost before = split_on(text@.take(i as int), ':');
        let ghost done = part_views(parts@);
        let ghost open = part@;
        assert(before == done.push(open));
        assert(before.drop_last() == done);
        assert(before.last() == open);
        assert(text@.take(i + 1).drop_last() == text@.take(i as int));
        assert(text@.take(i + 1).last() == c);
        if c == ':' {
            parts.push(part);
            part = Vec::new();
            assert(part_views(parts@) =~= done.push(open));
            assert(part@ =~= Seq::<char>::empty());
        } else {
            part.push(c);
        }
        assert(part_views(parts@).push(part@) =~= split_on(text@.take(i + 1), ':'));
    }
    assert(text@.take(chars@.len() as int) == text@);
    let ghost done = part_views(parts@);
    let ghost open = part@;
    parts.push(part);
    assert(part_views(parts@) =~= done.push(open));
    parts
}

/// Reads the four numbers of a crop value `W:H:X:Y`; a malformed one has none.
pub fn read_crop(crop: &str) -> (numbers: Option<(u32, u32, u32, u32)>)
    ensures
        numbers == crop_numbers(crop@),
{
    let parts = split_parts(crop);
    let ghost views = part_views(parts@);
    if parts.len() != 4 {
        return None;
    }
    assert(views[0] == parts@[0]@ && views[1] == parts@[1]@ && views[2] == parts@[2]@ && views[3]
        == parts@[3]@);
    match (
        parse_number(&parts[0]),
        parse_number(&parts[1]),
        parse_number(&parts[2]),
        parse_number(&parts[3]),
    ) {
        (Some(width), Some(height), Some(x), Some(y)) => Some((width, height, x, y)),
        _ => None,
    }
}

/// Returns true when the detected crop trims at most `threshold` pixels from every edge of the
/// source frame, so that the black bars are negligible. A threshold of 0 only accepts crops
/// identical to the full frame. A crop value other than `W:H:X:Y` is malformed and never negligible.
pub fn is_within_threshold(crop: &str, size: (u32, u32), threshold: u32) -> (negligible: bool)
    ensures
        negligible == within_threshold(crop@, size, threshold),
{
    match read_crop(crop) {
        Some((w, h, left, top)) => {
            let width: u64 = w as u64;
            let height: u64 = h as u64;
            let x: u64 = left as u64;
            let y: u64 = top as u64;
            let limit: u64 = threshold as u64;
            width <= size.0 as u64 && height <= size.1 as u64 && x <= limit && size.0 as u64 <= x
                + width + limit && y <= limit && size.1 as u64 <= y + height + limit
        },
        None => false,
    }
}

/// The text of the crop value with the given numbers.
pub open spec fn crop_text(width: u32, height: u32, x: u32, y: u32) -> Seq<char> {
    decimal(width as nat) + seq![':'] + decimal(height as nat) + seq![':'] + decimal(x as nat)
        + seq![':'] + decimal(y as nat)
}

/// The decimal notation of `n` is a run of digits that denotes `n`.
pub proof fn lemma_decimal_value(n: nat)
    ensures
        decimal(n).len() > 0,
        all_digits(decimal(n)),
        digits_value(decimal(n)) == n,
    decreases n,
{
    if n < 10 {
        assert(decimal(n).drop_last() == Seq::<char>::empty());
        assert(digits_value(Seq::<char>::empty()) == 0);
    } else {
        lemma_decimal_value(n / 10);
        assert(decimal(n).drop_last() == decimal(n / 10));
        assert forall|i: int| 0 <= i < decimal(n).len() implies is_digit(
            #[trigger] decimal(n)[i],
        ) by {
            if i < decimal(n / 10).len() {
                assert(decimal(n)[i] == decimal(n / 10)[i]);
            }
        }
    }
}

/// A text without separators is one part.
proof fn lemma_split_whole(s: Seq<char>, sep: char)
    requires
        !s.contains(sep),
    ensures
        split_on(s, sep) == seq![s],
    decreases s.len(),
{
    if s.len() == 0 {
        assert(s == Seq::<char>::empty());
    } else {
        assert(s[s.len() - 1] != sep);
        assert forall|i: int| 0 <= i < s.len() - 1 implies s.drop_last()[i] != sep by {
            assert(s[i] != sep);
        }
        lemma_split_whole(s.drop_last(), sep);
        assert(s.drop_last().push(s.last()) == s);
        assert(split_on(s, sep) == seq![s]);
    }
}

/// Splitting distributes over two texts joined by a separator.
proof fn lemma_split_joined(a: Seq<char>, b: Seq<char>, sep: char)
    ensures
        split_on(a + seq![sep] + b, sep) == split_on(a, sep) + split_on(b, sep),
        split_on(b, sep).len() > 0,
    decreases b.len(),
{
    let whole = a + seq![sep] + b;
    if b.len() == 0 {
        assert(whole.drop_last() == a);
        assert(split_on(b, sep) == seq![Seq::<char>::empty()]);
        assert(split_on(whole, sep) == split_on(a, sep) + split_on(b, sep));
    } else {
        lemma_split_joined(a, b.drop_last(), sep);
        assert(whole.drop_last() == a + seq![sep] + b.drop_last());
        let left = split_on(a, sep);
        let right = split_on(b.drop_last(), sep);
        assert((left + right).drop_last() == left + right.drop_last());
        assert(split_on(whole, sep) == left + split_on(b, sep));
    }
}

/// A run of digits is one part, and is read as its number.
proof fn lemma_single_number(n: u32)
    ensures
        split_on(decimal(n as nat), ':') == seq![decimal(n as nat)],
        parsed_number(decimal(n as nat)) == Some(n),
{
    let digits = decimal(n as nat);
    lemma_decimal_value(n as nat);
    assert(!digits.contains(':')) by {
        if digits.contains(':') {
            let i = choose|i: int| 0 <= i < digits.len() && digits[i] == ':';
            assert(is_digit(digits[i]));
        }
    }
    assert(is_digit(digits[0]));
    lemma_split_whole(digits, ':');
}

/// The four numbers of a crop value are read back as they were written.
pub proof fn law_crop_text_is_read_back(width: u32, height: u32, x: u32, y: u32)
    ensures
        crop_numbers(crop_text(width, height, x, y)) == Some((width, height, x, y)),
{
    let c = seq![':'];
    let (dw, dh, dx, dy) = (
        decimal(width as nat),
        decimal(height as nat),
        decimal(x as nat),
        decimal(y as nat),
    );
    lemma_single_number(width);
    lemma_single_number(height);
    lemma_single_number(x);
    lemma_single_number(y);
    lemma_split_joined(dx, dy, ':');
    lemma_split_joined(dh, dx + c + dy, ':');
    lemma_split_joined(dw, dh + c + (dx + c + dy), ':');
    assert(crop_text(width, height, x, y) == dw + c + (dh + c + (dx + c + dy)));
    assert(split_on(crop_text(width, height, x, y), ':') == seq![dw, dh, dx, dy]);
}

/// A crop value that does not consist of exactly four parts, each of them a number, is malformed,
/// and no malformed crop value is negligible.
pub proof fn law_malformed_crops_are_rejected(crop: Seq<char>, size: (u32, u32), threshold: u32)
    ensures
        crop_numbers(crop) is Some <==> split_on(crop, ':').len() == 4 && forall|i: int|
            0 <= i < 4 ==> parsed_number(#[trigger] split_on(crop, ':')[i]) is Some,
        crop_numbers(crop) is None ==> !within_threshold(crop, size, threshold),
{
    let parts = split_on(crop, ':');
    if parts.len() == 4 && crop_numbers(crop) is None {
        assert(parsed_number(parts[0]) is None || parsed_number(parts[1]) is None || parsed_number(
            parts[2],
        ) is None || parsed_number(parts[3]) is None);
    }
}

/// A crop of `width` by `height` pixels at (`x`, `y`) is negligible exactly where it is no larger than
/// the frame and leaves out at most `threshold` pixels at the left, at the right, at the top and at
/// the bottom.
pub proof fn law_threshold_measures_the_edges(
    width: u32,
    height: u32,
    x: u32,
    y: u32,
    size: (u32, u32),
    threshold: u32,
)
    ensures
        within_threshold(crop_text(width, height, x, y), size, threshold) <==> {
            &&& width <= size.0
            &&& height <= size.1
            &&& x <= threshold
            &&& size.0 - (x + width) <= threshold
            &&& y <= threshold
            &&& size.1 - (y + height) <= threshold
        },
{
    law_crop_text_is_read_back(width, height, x, y);
}

/// However a crop value is written, its four numbers alone decide at every edge whether it is
/// negligible.
pub proof fn law_numbers_decide_at_every_edge(crop: Seq<char>, size: (u32, u32), threshold: u32)
    ensures
        within_threshold(crop, size, threshold) <==> (crop_numbers(crop) matches Some(n)
            && n.0 <= size.0 && n.1 <= size.1 && n.2 <= threshold && size.0 <= n.2 + n.0 + threshold
            && n.3 <= threshold && size.1 <= n.3 + n.1 + threshold),
{
}

/// A text without separators is one part, and two texts joined by a separator have the parts of the
/// one and then the parts of the other.
pub proof fn law_parts_stand_between_separators(a: Seq<char>, b: Seq<char>, sep: char)
    ensures
        !a.contains(sep) ==> split_on(a, sep) == seq![a],
        split_on(a + seq![sep] + b, sep) == split_on(a, sep) + split_on(b, sep),
{
    if !a.contains(sep) {
        lemma_split_whole(a, sep);
    }
    lemma_split_joined(a, b, sep);
}

/// A number is read digit by digit: another digit behind it makes it ten times as large, plus the
/// digit, as long as that fits in 32 bits; what is no number does not become one, but for a lone
/// plus sign.
pub proof fn law_number_is_read_digit_by_digit(s: Seq<char>, d: char)
    requires
        '0' <= d <= '9',
    ensures
        parsed_number(seq![d]) == Some((d as u32 - '0' as u32) as u32),
        s.len() > 0 ==> (parsed_number(s) matches Some(n) ==> parsed_number(s.push(d)) == (if n * 10
            + (d as u32 - '0' as u32) <= 0xffff_ffff {
            Some((n * 10 + (d as u32 - '0' as u32)) as u32)
        } else {
            None
        })),
        s.len() > 0 && s != seq!['+'] && parsed_number(s) is None ==> parsed_number(s.push(d))
            is None,
{
    let one = seq![d];
    assert(one.drop_last() == Seq::<char>::empty());
    assert(digits_value(Seq::<char>::empty()) == 0);
    assert(unsigned_digits(one) == one);
    assert(digits_value(one) == d as nat - '0' as nat);
    if s.len() > 0 {
        let digits = unsigned_digits(s);
        let longer = unsigned_digits(s.push(d));
        assert(longer == digits.push(d));
        assert(longer.drop_last() == digits);
        assert(digits_value(longer) == digits_value(digits) * 10 + (d as nat - '0' as nat));
        if all_digits(digits) {
            assert forall|i: int| 0 <= i < longer.len() implies is_digit(#[trigger] longer[i]) by {
                if i < digits.len() {
                    assert(is_digit(digits[i]));
                }
            }
        } else {
            let i = choose|i: int| 0 <= i < digits.len() && !is_digit(#[trigger] digits[i]);
            assert(longer[i] == digits[i]);
        }
        if digits.len() == 0 {
            assert(s =~= seq!['+']);
        }
    }
}

/// Nothing but digits makes a number, with at most one plus sign in front; the sign changes nothing.
pub proof fn law_numbers_hold_digits_alone(s: Seq<char>, i: int)
    ensures
        parsed_number(Seq::empty()) is None,
        0 <= i < s.len() && !('0' <= s[i] <= '9') && (i > 0 || s[i] != '+') ==> parsed_number(s)
            is None,
        parsed_number(seq!['+'] + s) == (if s.len() > 0 && s[0] != '+' {
            parsed_number(s)
        } else {
            None
        }),
{
    let signed = seq!['+'] + s;
    assert(signed.skip(1) == s);
    if 0 <= i < s.len() && !('0' <= s[i] <= '9') && (i > 0 || s[i] != '+') {
        let digits = unsigned_digits(s);
        let k = if s[0] == '+' {
            i - 1
        } else {
            i
        };
        assert(digits[k] == s[i]);
        assert(!is_digit(digits[k]));
    }
    if s.len() > 0 && s[0] == '+' {
        assert(!is_digit(s[0]));
    }
}

/// A threshold of 0 accepts exactly the crop that is the full frame.
pub proof fn law_zero_threshold_accepts_only_the_full_frame(crop: Seq<char>, size: (u32, u32))
    ensures
        within_threshold(crop, size, 0) <==> crop_numbers(crop) == Some((size.0, size.1, 0u32, 0u32)),
{
}

/// What is negligible at one threshold is negligible at every higher one.
pub proof fn law_threshold_is_monotone(crop: Seq<char>, size: (u32, u32), low: u32, high: u32)
    requires
        low <= high,
        within_threshold(crop, size, low),
    ensures
        within_threshold(crop, size, high),
{
}

/// A crop wider or higher than the frame is never negligible.
pub proof fn law_oversized_crops_are_rejected(crop: Seq<char>, size: (u32, u32), threshold: u32)
    requires
        crop_numbers(crop) matches Some((width, height, x, y)) && (width > size.0 || height
            > size.1),
    ensures
        !within_threshold(crop, size, threshold),
{
}

} // verus!
