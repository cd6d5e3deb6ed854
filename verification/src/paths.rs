//! Names and places of files: which files are videos, where input is looked for, where an encode
//! goes before it replaces its original.
use vstd::prelude::*;
use vstd::string::*;

use crate::crop::lemma_decimal_value;
use crate::text::{chars_of, decimal, push_decimal, same_text};

verus! {

/// The extensions of video files.
pub open spec fn video_extensions() -> Seq<Seq<char>> {
    seq!["mkv"@, "mp4"@, "avi"@, "mov"@, "wmv"@, "m4v"@, "webm"@]
}

/// The letter in lower case, if it is an ASCII capital letter.
pub open spec fn lower_char(c: char) -> char {
    if 'A' <= c <= 'Z' {
        (c as u32 + 32) as char
    } else {
        c
    }
}

/// The text with its ASCII capital letters in lower case.
pub open spec fn lower_text(text: Seq<char>) -> Seq<char> {
    text.map_values(|c: char| lower_char(c))
}

/// The text with its ASCII capital letters in lower case.
fn to_lower(text: &str) -> (lower: String)
    ensures
        lower@ == lower_text(text@),
{
    let chars = chars_of(text);
    let mut lower = String::new();
    for i in 0..chars.len()
        invariant
            chars@ == text@,
            lower@ == lower_text(text@).take(i as int),
    {
        let c = chars[i];
        if 'A' <= c && c <= 'Z' {
            lower.push((c as u8 + 32) as char);
        } else {
            lower.push(c);
        }
    }
    lower
}

/// Whether a file with this extension is a video, whatever the case of the extension.
pub open spec fn is_video(extension: Option<Seq<char>>) -> bool {
    match extension {
        Some(text) => video_extensions().contains(lower_text(text)),
        None => false,
    }
}

/// Whether a file with this extension is a video, whatever the case of the extension.
pub fn is_video_extension(extension: Option<&str>) -> (video: bool)
    ensures
        video == is_video(
            match extension {
                Some(text) => Some(text@),
                None => None,
            },
        ),
{
    match extension {
        Some(text) => {
            let lower = to_lower(text);
            let name = lower.as_str();
            let ghost all = video_extensions();
            assert(all[0] == "mkv"@ && all[1] == "mp4"@ && all[2] == "avi"@ && all[3] == "mov"@);
            assert(all[4] == "wmv"@ && all[5] == "m4v"@ && all[6] == "webm"@);
            same_text(name, "mkv") || same_text(name, "mp4") || same_text(name, "avi") || same_text(
                name,
                "mov",
            ) || same_text(name, "wmv") || same_text(name, "m4v") || same_text(name, "webm")
        },
        None => false,
    }
}

/// The extension of a file name, with the dot in front of it.
pub open spec fn suffix(extension: Option<Seq<char>>) -> Seq<char> {
    match extension {
        Some(text) => "."@ + text,
        None => Seq::empty(),
    }
}

/// The name of the temporary file for a file with this stem and extension.
pub open spec fn temp_name(stem: Seq<char>, extension: Option<Seq<char>>, process: nat) -> Seq<
    char,
> {
    stem + ".remove-bars-"@ + decimal(process) + suffix(extension)
}

/// The name of the temporary encode target for in-place processing. It stands next to the original
/// and keeps the original's extension, so that ffmpeg picks the same muxer; the process number sets
/// it apart from those of other runs.
pub fn temp_output_name(stem: &str, extension: Option<&str>, process: u32) -> (name: String)
    ensures
        name@ == temp_name(
            stem@,
            match extension {
                Some(text) => Some(text@),
                None => None,
            },
            process as nat,
        ),
{
    let mut name = stem.to_owned();
    name.append(".remove-bars-");
    push_decimal(&mut name, process as u128);
    match extension {
        Some(text) => {
            let mut dotted = ".".to_owned();
            dotted.append(text);
            name.append(dotted.as_str());
        },
        None => {},
    }
    assert(extension is None ==> name@ =~= stem@ + ".remove-bars-"@ + decimal(process as nat)
        + Seq::<char>::empty());
    name
}

/// What the input of a crop run is.
#[derive(Clone, Copy, Debug, PartialEq, Eq, Structural)]
pub enum InputKind {
    /// A directory of videos.
    Directory,
    /// A scan database.
    Database,
}

/// What the input of a crop run is, by what is known of its path.
pub open spec fn input_kind(is_dir: bool, is_file: bool, exists: bool) -> Option<InputKind> {
    if is_dir {
        Some(InputKind::Directory)
    } else if is_file && exists {
        Some(InputKind::Database)
    } else {
        None
    }
}

/// What is wrong with an input that is neither.
pub open spec fn input_problem(is_file: bool, exists: bool, shown: Seq<char>) -> Seq<char> {
    if is_file {
        "Scan database not found: "@ + shown
    } else if !exists {
        "Input path does not exist: "@ + shown
    } else {
        "Input path is neither a directory nor a scan database: "@ + shown
    }
}

/// Tells a directory of videos from a scan database; `shown` is the path as it is shown.
pub fn classify_input(is_dir: bool, is_file: bool, exists: bool, shown: &str) -> (kind: Result<
    InputKind,
    String,
>)
    ensures
        match kind {
            Ok(k) => input_kind(is_dir, is_file, exists) == Some(k),
            Err(message) => input_kind(is_dir, is_file, exists) is None && message@
                == input_problem(is_file, exists, shown@),
        },
{
    if is_dir {
        return Ok(InputKind::Directory);
    }
    if is_file && exists {
        return Ok(InputKind::Database);
    }
    let mut message = if is_file {
        "Scan database not found: ".to_owned()
    } else if !exists {
        "Input path does not exist: ".to_owned()
    } else {
        "Input path is neither a directory nor a scan database: ".to_owned()
    };
    message.append(shown);
    Err(message)
}

/// What is wrong with a path that is to be a directory, if anything is.
pub open spec fn directory_problem(
    exists: bool,
    is_dir: bool,
    label: Seq<char>,
    shown: Seq<char>,
) -> Option<Seq<char>> {
    if exists && is_dir {
        None
    } else if !exists {
        Some(label + " path does not exist: "@ + shown)
    } else {
        Some(label + " path is not a directory: "@ + shown)
    }
}

/// Checks that a path is a directory; `label` says what it is for, `shown` is the path as it is
/// shown.
pub fn check_directory(exists: bool, is_dir: bool, label: &str, shown: &str) -> (checked: Result<
    (),
    String,
>)
    ensures
        checked is Ok <==> exists && is_dir,
        checked matches Err(message) ==> directory_problem(exists, is_dir, label@, shown@) == Some(
            message@,
        ),
{
    if exists && is_dir {
        return Ok(());
    }
    let mut message = label.to_owned();
    if !exists {
        message.append(" path does not exist: ");
    } else {
        message.append(" path is not a directory: ");
    }
    message.append(shown);
    Err(message)
}

/// Extensions are told apart without regard to the case of ASCII letters.
pub proof fn law_extension_case_does_not_matter(a: Seq<char>, b: Seq<char>)
    requires
        lower_text(a) == lower_text(b),
    ensures
        is_video(Some(a)) == is_video(Some(b)),
{
}

/// The temporary file is never the original itself, keeps its extension, and says what it is from.
pub proof fn law_temp_file_is_set_apart(
    stem: Seq<char>,
    extension: Option<Seq<char>>,
    process: nat,
)
    ensures
        ({
            let temp = temp_name(stem, extension, process);
            let end = suffix(extension);
            &&& temp != stem + end
            &&& temp.skip(temp.len() - end.len()) == end
            &&& temp.take(stem.len() as int) == stem
            &&& temp.subrange(stem.len() as int, (stem.len() + ".remove-bars-"@.len()) as int)
                == ".remove-bars-"@
        }),
{
    reveal_strlit(".remove-bars-");
    let temp = temp_name(stem, extension, process);
    let end = suffix(extension);
    assert(temp.len() > (stem + end).len());
    assert(temp.skip(temp.len() - end.len()) =~= end);
    assert(temp.take(stem.len() as int) =~= stem);
    assert(temp.subrange(stem.len() as int, (stem.len() + ".remove-bars-"@.len()) as int)
        =~= ".remove-bars-"@);
}

/// A file is a video exactly where its extension is one of seven, in whatever case.
pub proof fn law_videos_have_one_of_seven_extensions(extension: Seq<char>)
    ensures
        is_video(Some(extension)) <==> {
            let lower = lower_text(extension);
            lower == "mkv"@ || lower == "mp4"@ || lower == "avi"@ || lower == "mov"@ || lower
                == "wmv"@ || lower == "m4v"@ || lower == "webm"@
        },
        !is_video(None),
{
    let all = video_extensions();
    assert(all[0] == "mkv"@ && all[1] == "mp4"@ && all[2] == "avi"@ && all[3] == "mov"@);
    assert(all[4] == "wmv"@ && all[5] == "m4v"@ && all[6] == "webm"@);
}

/// Lower case changes the ASCII capital letters alone, each into the letter 32 places on.
pub proof fn law_lower_case_changes_capitals_alone(text: Seq<char>, i: int)
    requires
        0 <= i < text.len(),
    ensures
        lower_text(text).len() == text.len(),
        'A' <= text[i] <= 'Z' ==> lower_text(text)[i] as int == text[i] as int + 32,
        !('A' <= text[i] <= 'Z') ==> lower_text(text)[i] == text[i],
{
}

/// The temporary name is made of the stem, a mark, the number of the process and the extension; two
/// processes never share one.
pub proof fn law_temp_files_of_processes_differ(
    stem: Seq<char>,
    extension: Option<Seq<char>>,
    process: nat,
    other: nat,
)
    ensures
        temp_name(stem, extension, process) == stem + ".remove-bars-"@ + decimal(process) + (
        match extension {
            Some(text) => "."@ + text,
            None => Seq::empty(),
        }),
        process != other ==> temp_name(stem, extension, process) != temp_name(
            stem,
            extension,
            other,
        ),
{
    let (a, b) = (temp_name(stem, extension, process), temp_name(stem, extension, other));
    let end = suffix(extension);
    let start = stem.len() + ".remove-bars-"@.len();
    assert(a.subrange(start as int, a.len() - end.len()) =~= decimal(process));
    assert(b.subrange(start as int, b.len() - end.len()) =~= decimal(other));
    lemma_decimal_value(process);
    lemma_decimal_value(other);
}

/// A directory is taken for a directory of videos, an existing file for a scan database, and nothing
/// else is accepted; what is wrong with it is said by what it is.
pub proof fn law_input_is_told_by_what_it_is(
    is_dir: bool,
    is_file: bool,
    exists: bool,
    shown: Seq<char>,
)
    ensures
        is_dir ==> input_kind(is_dir, is_file, exists) == Some(InputKind::Directory),
        !is_dir && is_file && exists ==> input_kind(is_dir, is_file, exists) == Some(
            InputKind::Database,
        ),
        !is_dir && !(is_file && exists) ==> input_kind(is_dir, is_file, exists) is None,
        is_file ==> input_problem(is_file, exists, shown) == "Scan database not found: "@ + shown,
        !is_file && !exists ==> input_problem(is_file, exists, shown)
            == "Input path does not exist: "@ + shown,
        !is_file && exists ==> input_problem(is_file, exists, shown)
            == "Input path is neither a directory nor a scan database: "@ + shown,
{
}

/// A directory that is there is accepted; what is missing and what is no directory are told apart,
/// and the message says what the path is for.
pub proof fn law_only_directories_are_accepted(
    exists: bool,
    is_dir: bool,
    label: Seq<char>,
    shown: Seq<char>,
)
    ensures
        directory_problem(exists, is_dir, label, shown) is None <==> exists && is_dir,
        !exists ==> directory_problem(exists, is_dir, label, shown) == Some(
            label + " path does not exist: "@ + shown,
        ),
        exists && !is_dir ==> directory_problem(exists, is_dir, label, shown) == Some(
            label + " path is not a directory: "@ + shown,
        ),
{
}

} // verus!
