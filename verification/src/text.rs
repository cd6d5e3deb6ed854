//! Text building blocks: decimal numbers, padding, joining and comparing.
use vstd::prelude::*;
use vstd::string::*;

verus! {

/// `String::push` of the standard library: appends one character at the end.
pub assume_specification[ String::push ](s: &mut String, c: char)
    ensures
        final(s)@ == old(s)@.push(c),
;

/// The decimal digit with value `d`, for `d` below ten.
pub open spec fn digit_char(d: nat) -> char {
    ('0' as nat + d) as char
}

/// The decimal notation of `n`, without leading zeros.
pub open spec fn decimal(n: nat) -> Seq<char>
    decreases n,
{
    if n < 10 {
        seq![digit_char(n)]
    } else {
        decimal(n / 10).push(digit_char(n % 10))
    }
}

/// `n` copies of the character `c`.
pub open spec fn repeated(c: char, n: nat) -> Seq<char> {
    Seq::new(n, |i: int| c)
}

/// `text` with `fill` put in front until it is at least `width` characters long.
pub open spec fn padded_left(text: Seq<char>, width: nat, fill: char) -> Seq<char> {
    if text.len() >= width {
        text
    } else {
        repeated(fill, (width - text.len()) as nat) + text
    }
}

/// The texts of a list of strings.
pub open spec fn texts(list: Seq<String>) -> Seq<Seq<char>> {
    Seq::new(list.len(), |i: int| list[i]@)
}

/// The text of a string that may be absent.
pub open spec fn text_of(value: Option<String>) -> Option<Seq<char>> {
    match value {
        Some(s) => Some(s@),
        None => None,
    }
}

/// Whether two texts hold the same characters.
pub fn same_text(a: &str, b: &str) -> (same: bool)
    ensures
        same == (a@ == b@),
{
    a.to_owned() == b.to_owned()
}

/// The characters of a text, one by one.
pub fn chars_of(s: &str) -> (chars: Vec<char>)
    ensures
        chars@ == s@,
{
    let mut chars: Vec<char> = Vec::new();
    for c in it: s.chars()
        invariant
            it.seq() == s@,
            chars@ == s@.take(it.index() as int),
    {
        chars.push(c);
    }
    chars
}

/// Appends the decimal notation of `n`.
pub fn push_decimal(out: &mut String, n: u128)
    ensures
        final(out)@ == old(out)@ + decimal(n as nat),
    decreases n,
{
    if n >= 10 {
        push_decimal(out, n / 10);
    }
    let digit: u8 = 48u8 + (n % 10) as u8;
    out.push(digit as char);
}

/// The decimal notation of `n`.
pub fn decimal_string(n: u128) -> (out: String)
    ensures
        out@ == decimal(n as nat),
{
    let mut out = String::new();
    push_decimal(&mut out, n);
    out
}

/// Appends `count` copies of `c`.
pub fn push_repeated(out: &mut String, c: char, count: usize)
    ensures
        final(out)@ == old(out)@ + repeated(c, count as nat),
{
    let ghost start = out@;
    for i in 0..count
        invariant
            out@ == start + repeated(c, i as nat),
    {
        out.push(c);
    }
}

/// Appends the decimal notation of `n`, padded on the left to `width` with `fill`.
pub fn push_padded(out: &mut String, n: u128, width: usize, fill: char)
    ensures
        final(out)@ == old(out)@ + padded_left(decimal(n as nat), width as nat, fill),
{
    let digits = decimal_string(n);
    let length: usize = digits.as_str().unicode_len();
    if length < width {
        push_repeated(out, fill, width - length);
    }
    out.append(digits.as_str());
}

/// A label followed by a number in decimal notation.
pub fn labelled(label: &str, n: u128) -> (line: String)
    ensures
        line@ == label@ + decimal(n as nat),
{
    let mut line = label.to_owned();
    push_decimal(&mut line, n);
    line
}

/// The text with every occurrence of one character replaced by another.
pub open spec fn replaced(text: Seq<char>, from: char, to: char) -> Seq<char> {
    text.map_values(
        |c: char|
            if c == from {
                to
            } else {
                c
            },
    )
}

/// The text with every occurrence of one character replaced by another.
pub fn replace_char(text: &str, from: char, to: char) -> (out: String)
    ensures
        out@ == replaced(text@, from, to),
{
    let chars = chars_of(text);
    let mut out = String::new();
    for i in 0..chars.len()
        invariant
            chars@ == text@,
            out@ == replaced(text@, from, to).take(i as int),
    {
        if chars[i] == from {
            out.push(to);
        } else {
            out.push(chars[i]);
        }
    }
    out
}

/// A copy of a string that may be absent.
pub fn copied_text(value: &Option<String>) -> (copy: Option<String>)
    ensures
        copy == *value,
{
    match value {
        Some(s) => Some(s.clone()),
        None => None,
    }
}

/// A number is written without leading zeros: only zero itself begins with one.
pub proof fn law_decimal_has_no_leading_zeros(n: nat)
    ensures
        decimal(n).len() > 0,
        decimal(n)[0] == '0' <==> n == 0,
    decreases n,
{
    if n >= 10 {
        law_decimal_has_no_leading_zeros(n / 10);
        assert(decimal(n)[0] == decimal(n / 10)[0]);
    }
}

/// Padding puts the fill in front, as much as is missing, and keeps the text at the end.
pub proof fn law_padding_stands_in_front(text: Seq<char>, width: nat, fill: char)
    ensures
        ({
            let padded = padded_left(text, width, fill);
            &&& padded.len() == (if text.len() < width {
                width
            } else {
                text.len()
            })
            &&& padded.skip(padded.len() - text.len()) == text
            &&& forall|i: int|
                0 <= i < padded.len() - text.len() ==> #[trigger] padded[i] == fill
        }),
{
    let padded = padded_left(text, width, fill);
    assert(padded.skip(padded.len() - text.len()) =~= text);
}

/// A replacement changes the named character alone, wherever it stands, and nothing else.
pub proof fn law_replacement_changes_one_character(
    text: Seq<char>,
    from: char,
    to: char,
    i: int,
)
    requires
        0 <= i < text.len(),
    ensures
        replaced(text, from, to).len() == text.len(),
        text[i] == from ==> replaced(text, from, to)[i] == to,
        text[i] != from ==> replaced(text, from, to)[i] == text[i],
{
}

/// A run of one character has the given length and holds no other character.
pub proof fn law_repeated_character(c: char, n: nat, i: int)
    requires
        0 <= i < n,
    ensures
        repeated(c, n).len() == n,
        repeated(c, n)[i] == c,
{
}

/// The texts of strings are those of each string in its place.
pub proof fn law_texts_are_those_of_the_strings(list: Seq<String>, i: int)
    requires
        0 <= i < list.len(),
    ensures
        texts(list).len() == list.len(),
        texts(list)[i] == list[i]@,
        text_of(Some(list[i])) == Some(list[i]@),
        text_of(None) == None::<Seq<char>>,
{
}

} // verus!
