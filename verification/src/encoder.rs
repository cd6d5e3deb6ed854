//! Video encoders and the ffmpeg arguments that drive them.
use vstd::prelude::*;
use vstd::string::*;

use crate::text::{chars_of, decimal, decimal_string, same_text, texts};

verus! {

/// Video encoder to use for the re-encode step.
#[derive(Clone, Copy, Debug, PartialEq, Eq, Structural)]
pub enum VideoEncoder {
    /// Software x264 (CPU)
    X264,
    /// NVIDIA NVENC hardware encoder (h264_nvenc)
    Nvenc,
    /// AMD AMF hardware encoder (h264_amf)
    Amf,
    /// Intel Quick Sync Video hardware encoder (h264_qsv)
    Qsv,
}

impl VideoEncoder {
    /// The name by which ffmpeg knows the encoder.
    pub open spec fn codec(self) -> Seq<char> {
        match self {
            VideoEncoder::X264 => "libx264"@,
            VideoEncoder::Nvenc => "h264_nvenc"@,
            VideoEncoder::Amf => "h264_amf"@,
            VideoEncoder::Qsv => "h264_qsv"@,
        }
    }

    /// The name by which ffmpeg knows the encoder.
    pub fn codec_name(self) -> (name: &'static str)
        ensures
            name@ == self.codec(),
    {
        match self {
            VideoEncoder::X264 => "libx264",
            VideoEncoder::Nvenc => "h264_nvenc",
            VideoEncoder::Amf => "h264_amf",
            VideoEncoder::Qsv => "h264_qsv",
        }
    }
}

/// The NVENC preset for an x264-style preset; any other name stands for itself.
pub open spec fn nvenc_name(preset: Seq<char>) -> Seq<char> {
    if preset == "ultrafast"@ {
        "p1"@
    } else if preset == "superfast"@ {
        "p2"@
    } else if preset == "veryfast"@ || preset == "faster"@ || preset == "fast"@ {
        "p3"@
    } else if preset == "medium"@ {
        "p4"@
    } else if preset == "slow"@ {
        "p5"@
    } else if preset == "slower"@ {
        "p6"@
    } else if preset == "veryslow"@ {
        "p7"@
    } else {
        preset
    }
}

/// Maps x264-style presets to NVENC's p1 (fastest) through p7 (best quality) presets. NVENC preset
/// names (p1-p7) are passed through unchanged.
pub fn nvenc_preset(preset: &str) -> (name: String)
    ensures
        name@ == nvenc_name(preset@),
{
    if same_text(preset, "ultrafast") {
        "p1".to_owned()
    } else if same_text(preset, "superfast") {
        "p2".to_owned()
    } else if same_text(preset, "veryfast") || same_text(preset, "faster") || same_text(
        preset,
        "fast",
    ) {
        "p3".to_owned()
    } else if same_text(preset, "medium") {
        "p4".to_owned()
    } else if same_text(preset, "slow") {
        "p5".to_owned()
    } else if same_text(preset, "slower") {
        "p6".to_owned()
    } else if same_text(preset, "veryslow") {
        "p7".to_owned()
    } else {
        preset.to_owned()
    }
}

/// The AMF usage-quality preset for an x264-style preset.
pub open spec fn amf_name(preset: Seq<char>) -> Seq<char> {
    if preset == "ultrafast"@ || preset == "superfast"@ || preset == "veryfast"@ || preset
        == "faster"@ || preset == "fast"@ {
        "speed"@
    } else if preset == "medium"@ {
        "balanced"@
    } else {
        "quality"@
    }
}

/// Maps x264-style presets to AMF's usage-quality presets.
pub fn amf_quality(preset: &str) -> (name: String)
    ensures
        name@ == amf_name(preset@),
{
    if same_text(preset, "ultrafast") || same_text(preset, "superfast") || same_text(
        preset,
        "veryfast",
    ) || same_text(preset, "faster") || same_text(preset, "fast") {
        "speed".to_owned()
    } else if same_text(preset, "medium") {
        "balanced".to_owned()
    } else {
        "quality".to_owned()
    }
}

/// The ffmpeg output arguments for an encoder, a quality factor and an x264-style preset.
pub open spec fn encoder_arguments(encoder: VideoEncoder, crf: u32, preset: Seq<char>) -> Seq<
    Seq<char>,
> {
    let quality = decimal(crf as nat);
    match encoder {
        VideoEncoder::X264 => seq![
            "-c:v"@,
            "libx264"@,
            "-crf"@,
            quality,
            "-preset"@,
            preset,
        ],
        VideoEncoder::Nvenc => seq![
            "-c:v"@,
            "h264_nvenc"@,
            "-rc"@,
            "vbr"@,
            "-cq"@,
            quality,
            "-b:v"@,
            "0"@,
            "-preset"@,
            nvenc_name(preset),
        ],
        VideoEncoder::Qsv => seq![
            "-c:v"@,
            "h264_qsv"@,
            "-global_quality"@,
            quality,
            "-preset"@,
            preset,
        ],
        VideoEncoder::Amf => seq![
            "-c:v"@,
            "h264_amf"@,
            "-rc"@,
            "cqp"@,
            "-qp_i"@,
            quality,
            "-qp_p"@,
            quality,
            "-quality"@,
            amf_name(preset),
        ],
    }
}

/// Builds the ffmpeg output arguments for the video encoder, translating the quality factor and
/// x264-style preset to each encoder's own options.
pub fn video_encoder_args(encoder: VideoEncoder, crf: u32, preset: &str) -> (arguments: Vec<String>)
    ensures
        texts(arguments@) == encoder_arguments(encoder, crf, preset@),
{
    let quality = decimal_string(crf as u128);
    let arguments = match encoder {
        VideoEncoder::X264 => vec![
            "-c:v".to_owned(),
            "libx264".to_owned(),
            "-crf".to_owned(),
            quality,
            "-preset".to_owned(),
            preset.to_owned(),
        ],
        VideoEncoder::Nvenc => vec![
            "-c:v".to_owned(),
            "h264_nvenc".to_owned(),
            "-rc".to_owned(),
            "vbr".to_owned(),
            "-cq".to_owned(),
            quality,
            "-b:v".to_owned(),
            "0".to_owned(),
            "-preset".to_owned(),
            nvenc_preset(preset),
        ],
        VideoEncoder::Qsv => vec![
            "-c:v".to_owned(),
            "h264_qsv".to_owned(),
            "-global_quality".to_owned(),
            quality,
            "-preset".to_owned(),
            preset.to_owned(),
        ],
        VideoEncoder::Amf => vec![
            "-c:v".to_owned(),
            "h264_amf".to_owned(),
            "-rc".to_owned(),
            "cqp".to_owned(),
            "-qp_i".to_owned(),
            quality.clone(),
            "-qp_p".to_owned(),
            quality,
            "-quality".to_owned(),
            amf_quality(preset),
        ],
    };
    assert(texts(arguments@) =~= encoder_arguments(encoder, crf, preset@));
    arguments
}

/// The ffmpeg arguments of an encode: the filter is bound to the video streams alone, so that files
/// with audio and subtitles can be encoded too; all streams of the input are kept, and those of
/// audio and subtitles are copied as they are.
pub open spec fn encode_options(
    filter: Seq<char>,
    encoder: VideoEncoder,
    crf: u32,
    preset: Seq<char>,
) -> Seq<Seq<char>> {
    seq!["-vf"@, filter, "-map"@, "0"@] + encoder_arguments(encoder, crf, preset) + seq![
        "-c:a"@,
        "copy"@,
        "-c:s"@,
        "copy"@,
    ]
}

/// The ffmpeg arguments of an encode, between the input file and the output file.
pub fn encode_arguments(filter: &str, encoder: VideoEncoder, crf: u32, preset: &str) -> (arguments:
    Vec<String>)
    ensures
        texts(arguments@) == encode_options(filter@, encoder, crf, preset@),
{
    let mut arguments = vec![
        "-vf".to_owned(),
        filter.to_owned(),
        "-map".to_owned(),
        "0".to_owned(),
    ];
    let ghost start = texts(arguments@);
    assert(start =~= seq!["-vf"@, filter@, "-map"@, "0"@]);
    let mut codec = video_encoder_args(encoder, crf, preset);
    let ghost middle = texts(codec@);
    arguments.append(&mut codec);
    assert(texts(arguments@) =~= start + middle);
    arguments.push("-c:a".to_owned());
    arguments.push("copy".to_owned());
    arguments.push("-c:s".to_owned());
    arguments.push("copy".to_owned());
    assert(texts(arguments@) =~= start + middle + seq!["-c:a"@, "copy"@, "-c:s"@, "copy"@]);
    arguments
}

/// The characters with the Unicode property White_Space.
pub open spec fn is_white_space(c: char) -> bool {
    ||| '\u{9}' <= c <= '\u{d}'
    ||| c == '\u{20}'
    ||| c == '\u{85}'
    ||| c == '\u{a0}'
    ||| c == '\u{1680}'
    ||| '\u{2000}' <= c <= '\u{200a}'
    ||| c == '\u{2028}'
    ||| c == '\u{2029}'
    ||| c == '\u{202f}'
    ||| c == '\u{205f}'
    ||| c == '\u{3000}'
}

/// Whether a character separates words.
fn separates(c: char) -> (separating: bool)
    ensures
        separating == is_white_space(c),
{
    ('\u{9}' <= c && c <= '\u{d}') || c == '\u{20}' || c == '\u{85}' || c == '\u{a0}' || c
        == '\u{1680}' || ('\u{2000}' <= c && c <= '\u{200a}') || c == '\u{2028}' || c == '\u{2029}'
        || c == '\u{202f}' || c == '\u{205f}' || c == '\u{3000}'
}

/// A word stands from position `i` up to position `j`: a run of characters other than white space
/// that nothing extends on either side.
pub open spec fn word_at(list: Seq<char>, i: int, j: int) -> bool {
    &&& 0 <= i < j <= list.len()
    &&& forall|k: int| i <= k < j ==> !is_white_space(#[trigger] list[k])
    &&& i > 0 ==> is_white_space(list[i - 1])
    &&& j < list.len() ==> is_white_space(list[j])
}

/// The word occurs in the list, set off by white space.
pub open spec fn has_word(list: Seq<char>, word: Seq<char>) -> bool {
    exists|i: int, j: int| #[trigger] word_at(list, i, j) && list.subrange(i, j) == word
}

/// Whether a word occurs in a text, set off by white space or line ends.
pub fn lists_word(list: &str, word: &str) -> (listed: bool)
    ensures
        listed == has_word(list@, word@),
{
    let chars = chars_of(list);
    let wanted = chars_of(word);
    let mut start: usize = 0;
    let mut i: usize = 0;
    while i < chars.len()
        invariant
            chars@ == list@,
            wanted@ == word@,
            start <= i <= chars.len(),
            start > 0 ==> is_white_space(list@[start - 1]),
            forall|k: int| start <= k < i ==> !is_white_space(#[trigger] list@[k]),
            forall|a: int, b: int|
                a < start && #[trigger] word_at(list@, a, b) ==> list@.subrange(a, b) != word@,
        decreases chars.len() - i,
    {
        if separates(chars[i]) {
            if is_slice(&chars, start, i, &wanted) {
                assert(word_at(list@, start as int, i as int));
                return true;
            }
            assert forall|a: int, b: int| a < i + 1 && #[trigger] word_at(list@, a, b) implies
                list@.subrange(a, b) != word@ by {
                if a >= start {
                    assert(!is_white_space(list@[a]));
                    if a > start {
                        assert(!is_white_space(list@[a - 1]));
                    }
                    if b > i {
                        assert(!is_white_space(list@[i as int]));
                    }
                    if b < i {
                        assert(!is_white_space(list@[b]));
                    }
                }
            }
            start = i + 1;
        }
        i = i + 1;
    }
    if is_slice(&chars, start, i, &wanted) {
        assert(word_at(list@, start as int, i as int));
        return true;
    }
    assert forall|a: int, b: int| #[trigger] word_at(list@, a, b) implies list@.subrange(a, b)
        != word@ by {
        if a >= start {
            if a > start {
                assert(!is_white_space(list@[a - 1]));
            }
            if b < i {
                assert(!is_white_space(list@[b]));
            }
        }
    }
    false
}

/// Whether the characters from `start` up to `end` are a non-empty run equal to `wanted`.
fn is_slice(chars: &Vec<char>, start: usize, end: usize, wanted: &Vec<char>) -> (equal: bool)
    requires
        start <= end <= chars@.len(),
    ensures
        equal == (start < end && chars@.subrange(start as int, end as int) == wanted@),
{
    if start == end || end - start != wanted.len() {
        return false;
    }
    for k in 0..wanted.len()
        invariant
            start < end <= chars@.len(),
            end - start == wanted@.len(),
            forall|m: int| 0 <= m < k ==> chars@[start + m] == #[trigger] wanted@[m],
    {
        if chars[start + k] != wanted[k] {
            assert(chars@.subrange(start as int, end as int)[k as int] != wanted@[k as int]);
            return false;
        }
    }
    assert(chars@.subrange(start as int, end as int) =~= wanted@);
    true
}

/// What is said about an encoder that ffmpeg does not have.
pub open spec fn missing_encoder_text(encoder: VideoEncoder) -> Seq<char> {
    "Encoder "@ + encoder.codec()
        + " is not available in this ffmpeg build; use '-e x264' or install an ffmpeg build with "@
        + encoder.codec() + " support"@
}

/// Verifies that the selected encoder is in ffmpeg's list of encoders. A missing GPU or driver
/// cannot be seen from that list; it only surfaces when the first encode runs.
pub fn ensure_encoder(list: &str, encoder: VideoEncoder) -> (checked: Result<(), String>)
    ensures
        checked is Ok <==> has_word(list@, encoder.codec()),
        checked matches Err(message) ==> message@ == missing_encoder_text(encoder),
{
    if lists_word(list, encoder.codec_name()) {
        Ok(())
    } else {
        let mut message = "Encoder ".to_owned();
        message.append(encoder.codec_name());
        message.append(
            " is not available in this ffmpeg build; use '-e x264' or install an ffmpeg build with ",
        );
        message.append(encoder.codec_name());
        message.append(" support");
        Err(message)
    }
}

/// The characters of the preset names that NVENC gives and takes.
proof fn lemma_preset_names()
    ensures
        "p1"@ == seq!['p', '1'],
        "p2"@ == seq!['p', '2'],
        "p3"@ == seq!['p', '3'],
        "p4"@ == seq!['p', '4'],
        "p5"@ == seq!['p', '5'],
        "p6"@ == seq!['p', '6'],
        "p7"@ == seq!['p', '7'],
        "ultrafast"@.len() == 9,
        "superfast"@.len() == 9,
        "veryfast"@.len() == 8,
        "faster"@.len() == 6,
        "fast"@.len() == 4,
        "medium"@.len() == 6,
        "slow"@.len() == 4,
        "slower"@.len() == 6,
        "veryslow"@.len() == 8,
        "ultrafast"@[0] == 'u',
        "superfast"@[0] == 's',
        "veryfast"@[4] == 'f',
        "faster"@[0] == 'f',
        "fast"@[0] == 'f',
        "medium"@[0] == 'm',
        "slow"@[0] == 's',
        "slower"@[0] == 's',
        "veryslow"@[4] == 's',
{
    reveal_strlit("p1");
    reveal_strlit("p2");
    reveal_strlit("p3");
    reveal_strlit("p4");
    reveal_strlit("p5");
    reveal_strlit("p6");
    reveal_strlit("p7");
    reveal_strlit("ultrafast");
    reveal_strlit("superfast");
    reveal_strlit("veryfast");
    reveal_strlit("faster");
    reveal_strlit("fast");
    reveal_strlit("medium");
    reveal_strlit("slow");
    reveal_strlit("slower");
    reveal_strlit("veryslow");
}

/// The x264-style presets, the fastest first.
pub open spec fn x264_presets() -> Seq<Seq<char>> {
    seq![
        "ultrafast"@,
        "superfast"@,
        "veryfast"@,
        "faster"@,
        "fast"@,
        "medium"@,
        "slow"@,
        "slower"@,
        "veryslow"@,
    ]
}

/// The x264-style presets are mapped to p1 through p7, and a slower preset never to a faster one.
pub proof fn law_nvenc_presets_are_mapped_monotonically(i: int, j: int)
    requires
        0 <= i <= j < x264_presets().len(),
    ensures
        nvenc_name(x264_presets()[i]).len() == 2,
        nvenc_name(x264_presets()[i])[0] == 'p',
        '1' <= nvenc_name(x264_presets()[i])[1] <= nvenc_name(x264_presets()[j])[1] <= '7',
{
    lemma_preset_names();
}

/// A name that is no x264-style preset is passed to NVENC unchanged; p1 through p7 are such names.
pub proof fn law_nvenc_names_pass_through(name: Seq<char>)
    ensures
        !x264_presets().contains(name) ==> nvenc_name(name) == name,
        name.len() == 2 ==> nvenc_name(name) == name,
        nvenc_name(nvenc_name(name)) == nvenc_name(name),
{
    lemma_preset_names();
    let presets = x264_presets();
    assert(presets[0] == "ultrafast"@ && presets[1] == "superfast"@ && presets[2] == "veryfast"@);
    assert(presets[3] == "faster"@ && presets[4] == "fast"@ && presets[5] == "medium"@);
    assert(presets[6] == "slow"@ && presets[7] == "slower"@ && presets[8] == "veryslow"@);
}

/// Whatever the settings, the arguments select the encoder by its ffmpeg name and hand it the
/// quality factor.
pub proof fn law_arguments_select_the_encoder(encoder: VideoEncoder, crf: u32, preset: Seq<char>)
    ensures
        encoder_arguments(encoder, crf, preset)[0] == "-c:v"@,
        encoder_arguments(encoder, crf, preset)[1] == encoder.codec(),
        encoder_arguments(encoder, crf, preset).contains(decimal(crf as nat)),
{
    let arguments = encoder_arguments(encoder, crf, preset);
    match encoder {
        VideoEncoder::X264 | VideoEncoder::Qsv => {
            assert(arguments[3] == decimal(crf as nat));
        },
        VideoEncoder::Nvenc | VideoEncoder::Amf => {
            assert(arguments[5] == decimal(crf as nat));
        },
    }
}

/// Each encoder has its ffmpeg name, and the message about a missing one names it twice.
pub proof fn law_encoders_have_their_ffmpeg_names(encoder: VideoEncoder)
    ensures
        encoder == VideoEncoder::X264 ==> encoder.codec() == "libx264"@,
        encoder == VideoEncoder::Nvenc ==> encoder.codec() == "h264_nvenc"@,
        encoder == VideoEncoder::Amf ==> encoder.codec() == "h264_amf"@,
        encoder == VideoEncoder::Qsv ==> encoder.codec() == "h264_qsv"@,
        missing_encoder_text(encoder) == "Encoder "@ + encoder.codec()
            + " is not available in this ffmpeg build; use '-e x264' or install an ffmpeg build with "@
            + encoder.codec() + " support"@,
{
}

/// x264 and QSV get the quality factor under their own option and the preset as it is.
pub proof fn law_x264_and_qsv_take_the_preset_as_it_is(crf: u32, preset: Seq<char>)
    ensures
        encoder_arguments(VideoEncoder::X264, crf, preset) == seq!["-c:v"@, "libx264"@] + seq![
            "-crf"@,
            decimal(crf as nat),
        ] + seq!["-preset"@, preset],
        encoder_arguments(VideoEncoder::Qsv, crf, preset) == seq!["-c:v"@, "h264_qsv"@] + seq![
            "-global_quality"@,
            decimal(crf as nat),
        ] + seq!["-preset"@, preset],
{
    assert(encoder_arguments(VideoEncoder::X264, crf, preset) =~= seq!["-c:v"@, "libx264"@] + seq![
        "-crf"@,
        decimal(crf as nat),
    ] + seq!["-preset"@, preset]);
    assert(encoder_arguments(VideoEncoder::Qsv, crf, preset) =~= seq!["-c:v"@, "h264_qsv"@] + seq![
        "-global_quality"@,
        decimal(crf as nat),
    ] + seq!["-preset"@, preset]);
}

/// NVENC gets the quality factor as its target under variable bit rate without a limit, and one of
/// its own presets for each x264-style one; any other preset is handed on unchanged.
pub proof fn law_nvenc_takes_its_own_presets(crf: u32, preset: Seq<char>)
    ensures
        ({
            let arguments = encoder_arguments(VideoEncoder::Nvenc, crf, preset);
            let name = arguments[9];
            &&& arguments.len() == 10
            &&& arguments.take(9) == seq!["-c:v"@, "h264_nvenc"@] + seq!["-rc"@, "vbr"@] + seq![
                "-cq"@,
                decimal(crf as nat),
            ] + seq!["-b:v"@, "0"@, "-preset"@]
            &&& preset == "ultrafast"@ ==> name == "p1"@
            &&& preset == "superfast"@ ==> name == "p2"@
            &&& preset == "veryfast"@ ==> name == "p3"@
            &&& preset == "faster"@ ==> name == "p3"@
            &&& preset == "fast"@ ==> name == "p3"@
            &&& preset == "medium"@ ==> name == "p4"@
            &&& preset == "slow"@ ==> name == "p5"@
            &&& preset == "slower"@ ==> name == "p6"@
            &&& preset == "veryslow"@ ==> name == "p7"@
            &&& !x264_presets().contains(preset) ==> name == preset
        }),
{
    lemma_preset_names();
    law_nvenc_names_pass_through(preset);
    let arguments = encoder_arguments(VideoEncoder::Nvenc, crf, preset);
    assert(arguments.take(9) =~= seq!["-c:v"@, "h264_nvenc"@] + seq!["-rc"@, "vbr"@] + seq![
        "-cq"@,
        decimal(crf as nat),
    ] + seq!["-b:v"@, "0"@, "-preset"@]);
}

/// AMF gets the quality factor as a constant quantizer for both kinds of frames. Its quality is
/// speed for the fast presets, balanced for medium, and quality for the slow ones and for every
/// other name.
pub proof fn law_amf_takes_its_own_qualities(crf: u32, preset: Seq<char>)
    ensures
        ({
            let arguments = encoder_arguments(VideoEncoder::Amf, crf, preset);
            let name = arguments[9];
            &&& arguments.len() == 10
            &&& arguments.take(9) == seq!["-c:v"@, "h264_amf"@] + seq!["-rc"@, "cqp"@] + seq![
                "-qp_i"@,
                decimal(crf as nat),
            ] + seq!["-qp_p"@, decimal(crf as nat), "-quality"@]
            &&& preset == "ultrafast"@ ==> name == "speed"@
            &&& preset == "superfast"@ ==> name == "speed"@
            &&& preset == "veryfast"@ ==> name == "speed"@
            &&& preset == "faster"@ ==> name == "speed"@
            &&& preset == "fast"@ ==> name == "speed"@
            &&& preset == "medium"@ ==> name == "balanced"@
            &&& preset == "slow"@ ==> name == "quality"@
            &&& preset == "slower"@ ==> name == "quality"@
            &&& preset == "veryslow"@ ==> name == "quality"@
            &&& !x264_presets().contains(preset) ==> name == "quality"@
        }),
{
    lemma_preset_names();
    let presets = x264_presets();
    assert(presets[0] == "ultrafast"@ && presets[1] == "superfast"@ && presets[2] == "veryfast"@);
    assert(presets[3] == "faster"@ && presets[4] == "fast"@ && presets[5] == "medium"@);
    let arguments = encoder_arguments(VideoEncoder::Amf, crf, preset);
    assert(arguments.take(9) =~= seq!["-c:v"@, "h264_amf"@] + seq!["-rc"@, "cqp"@] + seq![
        "-qp_i"@,
        decimal(crf as nat),
    ] + seq!["-qp_p"@, decimal(crf as nat), "-quality"@]);
}

/// The names of the presets, one by one, are those that nvenc_preset and amf_quality map.
pub proof fn law_presets_are_mapped_by_name(preset: Seq<char>)
    ensures
        nvenc_name(preset) == encoder_arguments(VideoEncoder::Nvenc, 0, preset).last(),
        amf_name(preset) == encoder_arguments(VideoEncoder::Amf, 0, preset).last(),
{
}

/// Whatever the encoder, an encode filters the video streams with exactly the given filter, keeps
/// every stream of the input, encodes the video as the encoder asks for, and copies audio and
/// subtitles.
pub proof fn law_encode_keeps_every_stream(
    filter: Seq<char>,
    encoder: VideoEncoder,
    crf: u32,
    preset: Seq<char>,
)
    ensures
        ({
            let options = encode_options(filter, encoder, crf, preset);
            let codec = encoder_arguments(encoder, crf, preset);
            &&& options.len() == codec.len() + 8
            &&& options.take(4) == seq!["-vf"@, filter] + seq!["-map"@, "0"@]
            &&& options.subrange(4, (4 + codec.len()) as int) == codec
            &&& options.skip((4 + codec.len()) as int) == seq!["-c:a"@, "copy"@] + seq!["-c:s"@, "copy"@]
        }),
{
    let options = encode_options(filter, encoder, crf, preset);
    let codec = encoder_arguments(encoder, crf, preset);
    assert(options.take(4) =~= seq!["-vf"@, filter] + seq!["-map"@, "0"@]);
    assert(options.subrange(4, (4 + codec.len()) as int) =~= codec);
    assert(options.skip((4 + codec.len()) as int) =~= seq!["-c:a"@, "copy"@] + seq!["-c:s"@, "copy"@]);
}

/// Blanks, tabs and line ends separate words; letters, digits and signs do not.
pub proof fn law_words_are_separated_by_blanks_and_lines(c: char)
    ensures
        c == ' ' || c == '\t' || c == '\n' || c == '\r' ==> is_white_space(c),
        '!' <= c <= '~' ==> !is_white_space(c),
{
}

/// A word is found wherever it stands, between white space or at an end of the list.
pub proof fn law_listed_word_is_found(before: Seq<char>, word: Seq<char>, after: Seq<char>)
    requires
        word.len() > 0,
        forall|i: int| 0 <= i < word.len() ==> !is_white_space(#[trigger] word[i]),
        before.len() > 0 ==> is_white_space(before.last()),
        after.len() > 0 ==> is_white_space(after[0]),
    ensures
        has_word(before + word + after, word),
{
    let list = before + word + after;
    let i = before.len() as int;
    let j = i + word.len();
    assert forall|k: int| i <= k < j implies !is_white_space(#[trigger] list[k]) by {
        assert(list[k] == word[k - i]);
    }
    assert(word_at(list, i, j));
    assert(list.subrange(i, j) =~= word);
}

/// A word that is found stands in the list whole: it holds no white space, and white space or an end
/// of the list is on either side of it.
pub proof fn law_found_word_stands_alone(list: Seq<char>, word: Seq<char>)
    requires
        has_word(list, word),
    ensures
        word.len() > 0,
        forall|i: int| 0 <= i < word.len() ==> !is_white_space(#[trigger] word[i]),
        exists|i: int|
            {
                &&& 0 <= i <= list.len() - word.len()
                &&& #[trigger] list.subrange(i, i + word.len()) == word
                &&& i > 0 ==> is_white_space(list[i - 1])
                &&& i + word.len() < list.len() ==> is_white_space(list[i + word.len()])
            },
{
    let (i, j) = choose|i: int, j: int|
        #[trigger] word_at(list, i, j) && list.subrange(i, j) == word;
    assert forall|k: int| 0 <= k < word.len() implies !is_white_space(#[trigger] word[k]) by {
        assert(word[k] == list[i + k]);
    }
    assert(list.subrange(i, i + word.len()) == word);
}

} // verus!
