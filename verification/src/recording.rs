//! Recording: the formats, the encoder's arguments and the names of recordings.

use crate::text::{
    characters, decimal, decimal_is_plain, digit_value, lemma_decimal, number, push_decimal,
};
use vstd::prelude::*;
use vstd::string::StringExecFns;

verus! {

/// What a recording is encoded as.
#[derive(Clone, Copy, Debug, PartialEq, Eq, Structural)]
pub enum RecordingFormat {
    Wav,
    Mp3,
    Flac,
    Ogg,
}

/// The format that comes behind another when formats are cycled through.
pub open spec fn format_after(format: RecordingFormat) -> RecordingFormat {
    match format {
        RecordingFormat::Wav => RecordingFormat::Mp3,
        RecordingFormat::Mp3 => RecordingFormat::Flac,
        RecordingFormat::Flac => RecordingFormat::Ogg,
        RecordingFormat::Ogg => RecordingFormat::Wav,
    }
}

/// The file name extension of a format.
pub open spec fn format_extension(format: RecordingFormat) -> Seq<char> {
    match format {
        RecordingFormat::Wav => "wav"@,
        RecordingFormat::Mp3 => "mp3"@,
        RecordingFormat::Flac => "flac"@,
        RecordingFormat::Ogg => "ogg"@,
    }
}

impl RecordingFormat {
    /// The format that comes next when formats are cycled through.
    pub fn next(self) -> (format: Self)
        ensures
            format == format_after(self),
    {
        match self {
            Self::Wav => Self::Mp3,
            Self::Mp3 => Self::Flac,
            Self::Flac => Self::Ogg,
            Self::Ogg => Self::Wav,
        }
    }

    /// The file name extension of recordings in this format.
    pub fn extension(self) -> (extension: &'static str)
        ensures
            extension@ == format_extension(self),
    {
        match self {
            Self::Wav => "wav",
            Self::Mp3 => "mp3",
            Self::Flac => "flac",
            Self::Ogg => "ogg",
        }
    }
}

/// The format `steps` places further on.
pub open spec fn format_after_steps(format: RecordingFormat, steps: nat) -> RecordingFormat
    decreases steps,
{
    if steps == 0 {
        format
    } else {
        format_after(format_after_steps(format, (steps - 1) as nat))
    }
}

/// Cycling reaches every format within three steps and is back where it began after four.
pub proof fn formats_form_one_cycle(from: RecordingFormat, to: RecordingFormat)
    ensures
        format_after_steps(from, 4) == from,
        exists|steps: nat| steps < 4 && #[trigger] format_after_steps(from, steps) == to,
{
    reveal_with_fuel(format_after_steps, 5);
    assert(format_after_steps(from, 0) == to || format_after_steps(from, 1) == to
        || format_after_steps(from, 2) == to || format_after_steps(from, 3) == to);
}

/// Different formats have different extensions.
pub proof fn extensions_differ(a: RecordingFormat, b: RecordingFormat)
    requires
        format_extension(a) == format_extension(b),
    ensures
        a == b,
{
    reveal_strlit("wav");
    reveal_strlit("mp3");
    reveal_strlit("flac");
    reveal_strlit("ogg");
    assert("wav"@[0] == 'w' && "mp3"@[0] == 'm' && "flac"@[0] == 'f' && "ogg"@[0] == 'o');
    assert(format_extension(a)[0] == format_extension(b)[0]);
}

/// The texts that a list of strings holds.
pub open spec fn string_texts(strings: Seq<String>) -> Seq<Seq<char>> {
    Seq::new(strings.len(), |i: int| strings[i]@)
}

/// How the encoder is told to encode.
pub open spec fn codec_arguments(format: RecordingFormat) -> Seq<Seq<char>> {
    match format {
        RecordingFormat::Wav => Seq::empty(),
        RecordingFormat::Mp3 => seq!["-c:a"@, "libmp3lame"@, "-b:a"@, "192k"@],
        RecordingFormat::Flac => seq!["-c:a"@, "flac"@],
        RecordingFormat::Ogg => seq!["-c:a"@, "libvorbis"@, "-q:a"@, "5"@],
    }
}

/// The encoder's arguments up to the output file: quiet, raw 16-bit samples on standard input,
/// overwrite, and the codec.
pub open spec fn encoder_arguments(
    sample_rate: u32,
    channels: u16,
    format: RecordingFormat,
) -> Seq<Seq<char>> {
    seq![
        "-hide_banner"@,
        "-loglevel"@,
        "error"@,
        "-f"@,
        "s16le"@,
        "-ar"@,
        decimal(sample_rate as nat),
        "-ac"@,
        decimal(channels as nat),
        "-i"@,
        "pipe:0"@,
        "-y"@,
    ] + codec_arguments(format)
}

fn push_text(list: &mut Vec<String>, text: &str)
    ensures
        string_texts(final(list)@) == string_texts(old(list)@).push(text@),
{
    list.push(text.to_owned());
    assert(string_texts(list@) =~= string_texts(old(list)@).push(text@));
}

fn push_number(list: &mut Vec<String>, n: u64)
    ensures
        string_texts(final(list)@) == string_texts(old(list)@).push(decimal(n as nat)),
{
    let mut text: String = String::new();
    push_decimal(&mut text, n);
    assert(text@ =~= decimal(n as nat));
    list.push(text);
    assert(string_texts(list@) =~= string_texts(old(list)@).push(decimal(n as nat)));
}

/// The arguments for the encoder process; the output file goes behind them.
pub fn recorder_arguments(
    sample_rate: u32,
    channels: u16,
    format: RecordingFormat,
) -> (arguments: Vec<String>)
    ensures
        string_texts(arguments@) == encoder_arguments(sample_rate, channels, format),
        arguments@.len() == encoder_arguments(sample_rate, channels, format).len(),
        forall|i: int|
            0 <= i < arguments@.len() ==> (#[trigger] arguments@[i])@ == encoder_arguments(
                sample_rate,
                channels,
                format,
            )[i],
        arguments@.len() >= 12,
        arguments@[5]@ == "-ar"@,
        number(arguments@[6]@) == Some(sample_rate as u64),
        arguments@[7]@ == "-ac"@,
        number(arguments@[8]@) == Some(channels as u64),
        arguments@[9]@ == "-i"@,
{
    let mut arguments: Vec<String> = Vec::new();
    push_text(&mut arguments, "-hide_banner");
    push_text(&mut arguments, "-loglevel");
    push_text(&mut arguments, "error");
    push_text(&mut arguments, "-f");
    push_text(&mut arguments, "s16le");
    push_text(&mut arguments, "-ar");
    push_number(&mut arguments, sample_rate as u64);
    push_text(&mut arguments, "-ac");
    push_number(&mut arguments, channels as u64);
    push_text(&mut arguments, "-i");
    push_text(&mut arguments, "pipe:0");
    push_text(&mut arguments, "-y");
    match format {
        RecordingFormat::Wav => {},
        RecordingFormat::Mp3 => {
            push_text(&mut arguments, "-c:a");
            push_text(&mut arguments, "libmp3lame");
            push_text(&mut arguments, "-b:a");
            push_text(&mut arguments, "192k");
        },
        RecordingFormat::Flac => {
            push_text(&mut arguments, "-c:a");
            push_text(&mut arguments, "flac");
        },
        RecordingFormat::Ogg => {
            push_text(&mut arguments, "-c:a");
            push_text(&mut arguments, "libvorbis");
            push_text(&mut arguments, "-q:a");
            push_text(&mut arguments, "5");
        },
    }
    assert(string_texts(arguments@) =~= encoder_arguments(sample_rate, channels, format));
    proof {
        the_encoder_is_told_what_it_gets(sample_rate, channels, format);
        let list = string_texts(arguments@);
        assert forall|i: int| 0 <= i < arguments@.len() implies (#[trigger] arguments@[i])@
            == encoder_arguments(sample_rate, channels, format)[i] by {
            assert(list[i] == arguments@[i]@);
        }
        assert(list[5] == arguments@[5]@ && list[6] == arguments@[6]@ && list[7] == arguments@[7]@
            && list[8] == arguments@[8]@ && list[9] == arguments@[9]@);
    }
    arguments
}

/// An ASCII letter or digit.
pub open spec fn is_alphanumeric(c: char) -> bool {
    ('0' <= c && c <= '9') || ('A' <= c && c <= 'Z') || ('a' <= c && c <= 'z')
}

/// What stands for a character in a file name.
pub open spec fn safe_char(c: char) -> char {
    if is_alphanumeric(c) {
        c
    } else {
        '_'
    }
}

/// A channel's name as it is used in file names.
pub open spec fn safe_name(name: Seq<char>) -> Seq<char> {
    Seq::new(name.len(), |i: int| safe_char(name[i]))
}

/// The name of a recording: the channel, the time in seconds, and the format's extension.
pub open spec fn recording_name(
    channel: Seq<char>,
    stamp: u64,
    format: RecordingFormat,
) -> Seq<char> {
    safe_name(channel) + "-"@ + decimal(stamp as nat) + "."@ + format_extension(format)
}

/// The file name for a recording of a channel that is begun `stamp` seconds into the epoch.
pub fn recording_file_name(
    channel: &str,
    stamp: u64,
    format: RecordingFormat,
) -> (name: String)
    ensures
        name@ == recording_name(channel@, stamp, format),
{
    let chars: Vec<char> = characters(channel);
    let mut name: String = String::new();
    let mut i: usize = 0;
    while i < chars.len()
        invariant
            i <= chars@.len(),
            chars@ == channel@,
            name@ == safe_name(channel@).take(i as int),
        decreases chars@.len() - i,
    {
        let c: char = chars[i];
        let safe: char = if ('0' <= c && c <= '9') || ('A' <= c && c <= 'Z') || ('a' <= c && c
            <= 'z') {
            c
        } else {
            '_'
        };
        assert(safe_name(channel@).take(i as int).push(safe) =~= safe_name(channel@).take(i + 1));
        name.push(safe);
        i = i + 1;
    }
    assert(safe_name(channel@).take(i as int) =~= safe_name(channel@));
    name.append("-");
    push_decimal(&mut name, stamp);
    name.append(".");
    name.append(format.extension());
    name
}

/// The channel's part of a file name has the channel name's length and only ASCII letters,
/// digits and underscores, and is not changed by being made safe once more.
pub proof fn safe_names_are_plain(name: Seq<char>)
    ensures
        safe_name(name).len() == name.len(),
        forall|i: int|
            0 <= i < name.len() ==> is_alphanumeric(#[trigger] safe_name(name)[i])
                || safe_name(name)[i] == '_',
        safe_name(safe_name(name)) == safe_name(name),
{
    assert(safe_name(safe_name(name)) =~= safe_name(name));
}

/// A character of a recording's name.
pub open spec fn is_plain(c: char) -> bool {
    is_alphanumeric(c) || c == '_' || c == '-' || c == '.'
}

/// Whatever the channel is called, a recording's name has only ASCII letters and digits,
/// underscores, hyphens and dots, so that it names a file in the recordings' directory.
pub proof fn recording_names_are_plain(channel: Seq<char>, stamp: u64, format: RecordingFormat)
    ensures
        forall|i: int|
            0 <= i < recording_name(channel, stamp, format).len() ==> is_plain(
                #[trigger] recording_name(channel, stamp, format)[i],
            ),
{
    reveal_strlit("-");
    reveal_strlit(".");
    reveal_strlit("wav");
    reveal_strlit("mp3");
    reveal_strlit("flac");
    reveal_strlit("ogg");
    lemma_decimal(stamp as nat);
    let digits = decimal(stamp as nat);
    let extension = format_extension(format);
    assert forall|i: int| 0 <= i < digits.len() implies is_plain(#[trigger] digits[i]) by {
        assert(digit_value(digits[i]) is Some);
    }
    assert forall|i: int| 0 <= i < extension.len() implies is_plain(#[trigger] extension[i]) by {}
    let a = safe_name(channel);
    let b = a + "-"@;
    let c = b + digits;
    let d = c + "."@;
    assert forall|i: int| 0 <= i < b.len() implies is_plain(#[trigger] b[i]) by {
        if i < a.len() {
            assert(b[i] == a[i]);
        }
    }
    assert forall|i: int| 0 <= i < c.len() implies is_plain(#[trigger] c[i]) by {
        if i < b.len() {
            assert(c[i] == b[i]);
        } else {
            assert(c[i] == digits[i - b.len()]);
        }
    }
    assert forall|i: int| 0 <= i < d.len() implies is_plain(#[trigger] d[i]) by {
        if i < c.len() {
            assert(d[i] == c[i]);
        }
    }
    let whole = d + extension;
    assert forall|i: int| 0 <= i < whole.len() implies is_plain(#[trigger] whole[i]) by {
        if i < d.len() {
            assert(whole[i] == d[i]);
        } else {
            assert(whole[i] == extension[i - d.len()]);
        }
    }
}

/// The 16-bit sample that two bytes hold, the low byte first.
pub open spec fn sample_of(low: u8, high: u8) -> int {
    let word = low + 256 * high;
    if word < 0x8000 {
        word
    } else {
        word - 0x1_0000
    }
}

/// The bytes of samples as the encoder takes them: two for each, the low one first.
pub fn pcm_bytes(samples: &[i16]) -> (bytes: Vec<u8>)
    ensures
        bytes@.len() == 2 * samples@.len(),
        forall|i: int| #![trigger samples@[i]]
            0 <= i < samples@.len() ==> bytes@[2 * i] + 256 * bytes@[2 * i + 1] == (
            samples@[i] as int) % 0x1_0000,
        forall|i: int| #![trigger samples@[i]]
            0 <= i < samples@.len() ==> sample_of(bytes@[2 * i], bytes@[2 * i + 1]) == samples@[i],
{
    let mut bytes: Vec<u8> = Vec::new();
    let mut at: usize = 0;
    while at < samples.len()
        invariant
            at <= samples@.len(),
            bytes@.len() == 2 * at,
            forall|i: int| #![trigger samples@[i]]
                0 <= i < at ==> bytes@[2 * i] + 256 * bytes@[2 * i + 1] == (samples@[i] as int)
                    % 0x1_0000,
        decreases samples@.len() - at,
    {
        let sample: i32 = samples[at] as i32;
        let word: i32 = if sample < 0 {
            sample + 0x1_0000
        } else {
            sample
        };
        bytes.push((word % 256) as u8);
        bytes.push((word / 256) as u8);
        at = at + 1;
    }
    bytes
}

/// The encoder is told what it gets: raw samples of 16 bits, low byte first, on its standard input,
/// at the device's own rate and with the device's own channels, both of which read back as the
/// numbers they are, and all of it before the input is named. It asks no questions and overwrites
/// what is there.
pub proof fn the_encoder_is_told_what_it_gets(
    sample_rate: u32,
    channels: u16,
    format: RecordingFormat,
)
    ensures
        ({
            let list = encoder_arguments(sample_rate, channels, format);
            &&& list.len() >= 12
            &&& list[0] == "-hide_banner"@ && list[1] == "-loglevel"@ && list[2] == "error"@
            &&& list[3] == "-f"@ && list[4] == "s16le"@
            &&& list[5] == "-ar"@ && number(list[6]) == Some(sample_rate as u64)
            &&& list[7] == "-ac"@ && number(list[8]) == Some(channels as u64)
            &&& list[9] == "-i"@ && list[10] == "pipe:0"@
            &&& list[11] == "-y"@
        }),
{
    decimal_is_plain(sample_rate as u64);
    decimal_is_plain(channels as u64);
}

/// Behind the input the encoder is told the codec of the format, and nothing for plain samples.
pub proof fn the_encoder_is_told_the_codec(sample_rate: u32, channels: u16)
    ensures
        encoder_arguments(sample_rate, channels, RecordingFormat::Wav).len() == 12,
        encoder_arguments(sample_rate, channels, RecordingFormat::Mp3).skip(12) == seq![
            "-c:a"@,
            "libmp3lame"@,
            "-b:a"@,
            "192k"@,
        ],
        encoder_arguments(sample_rate, channels, RecordingFormat::Flac).skip(12) == seq![
            "-c:a"@,
            "flac"@,
        ],
        encoder_arguments(sample_rate, channels, RecordingFormat::Ogg).skip(12) == seq![
            "-c:a"@,
            "libvorbis"@,
            "-q:a"@,
            "5"@,
        ],
{
    assert(encoder_arguments(sample_rate, channels, RecordingFormat::Mp3).skip(12) =~= seq![
        "-c:a"@,
        "libmp3lame"@,
        "-b:a"@,
        "192k"@,
    ]);
    assert(encoder_arguments(sample_rate, channels, RecordingFormat::Flac).skip(12) =~= seq![
        "-c:a"@,
        "flac"@,
    ]);
    assert(encoder_arguments(sample_rate, channels, RecordingFormat::Ogg).skip(12) =~= seq![
        "-c:a"@,
        "libvorbis"@,
        "-q:a"@,
        "5"@,
    ]);
}

/// The formats come in this order, round and round, and their files end like this.
pub proof fn formats_have_their_places()
    ensures
        format_after(RecordingFormat::Wav) == RecordingFormat::Mp3,
        format_after(RecordingFormat::Mp3) == RecordingFormat::Flac,
        format_after(RecordingFormat::Flac) == RecordingFormat::Ogg,
        format_after(RecordingFormat::Ogg) == RecordingFormat::Wav,
        format_extension(RecordingFormat::Wav) == "wav"@,
        format_extension(RecordingFormat::Mp3) == "mp3"@,
        format_extension(RecordingFormat::Flac) == "flac"@,
        format_extension(RecordingFormat::Ogg) == "ogg"@,
{
}

/// A recording's name tells the channel, character by character, with an underscore for whatever
/// is no ASCII letter or digit; then behind a hyphen the time, which reads back as the number it
/// is; then behind a dot the format.
pub proof fn recording_names_tell_what_is_recorded(
    channel: Seq<char>,
    stamp: u64,
    format: RecordingFormat,
)
    ensures
        ({
            let name = recording_name(channel, stamp, format);
            let ending = match format {
                RecordingFormat::Wav => "wav"@,
                RecordingFormat::Mp3 => "mp3"@,
                RecordingFormat::Flac => "flac"@,
                RecordingFormat::Ogg => "ogg"@,
            };
            let n = channel.len() as int;
            let dot = name.len() - ending.len() - 1;
            &&& n + 1 < dot
            &&& forall|i: int|
                0 <= i < n && (('0' <= channel[i] <= '9') || ('A' <= channel[i] <= 'Z') || ('a'
                    <= channel[i] <= 'z')) ==> #[trigger] name[i] == channel[i]
            &&& forall|i: int|
                0 <= i < n && !(('0' <= channel[i] <= '9') || ('A' <= channel[i] <= 'Z') || ('a'
                    <= channel[i] <= 'z')) ==> #[trigger] name[i] == '_'
            &&& name[n] == '-'
            &&& number(name.subrange(n + 1, dot)) == Some(stamp)
            &&& name[dot] == '.'
            &&& name.skip(dot + 1) == ending
        }),
{
    reveal_strlit("-");
    reveal_strlit(".");
    decimal_is_plain(stamp);
    let digits = decimal(stamp as nat);
    let ending = format_extension(format);
    let name = recording_name(channel, stamp, format);
    let n = channel.len() as int;
    let dot = n + 1 + digits.len();
    assert(name.len() == dot + 1 + ending.len());
    assert(name.subrange(n + 1, dot) =~= digits);
    assert(name.skip(dot + 1) =~= ending);
    assert forall|i: int| 0 <= i < n implies #[trigger] name[i] == safe_name(channel)[i] by {}
}

/// Recordings of a channel that are begun at different times, or in different formats, have
/// different names.
pub proof fn recordings_do_not_overwrite_each_other(
    channel: Seq<char>,
    stamp_a: u64,
    format_a: RecordingFormat,
    stamp_b: u64,
    format_b: RecordingFormat,
)
    requires
        recording_name(channel, stamp_a, format_a) == recording_name(channel, stamp_b, format_b),
    ensures
        stamp_a == stamp_b,
        format_a == format_b,
{
    reveal_strlit("wav");
    reveal_strlit("mp3");
    reveal_strlit("flac");
    reveal_strlit("ogg");
    recording_names_tell_what_is_recorded(channel, stamp_a, format_a);
    recording_names_tell_what_is_recorded(channel, stamp_b, format_b);
    let name = recording_name(channel, stamp_a, format_a);
    let a = format_extension(format_a);
    let b = format_extension(format_b);
    assert(name.last() == a.last()) by {
        let dot = name.len() - a.len() - 1;
        assert(name.skip(dot + 1).last() == name.last());
    }
    assert(name.last() == b.last()) by {
        let dot = name.len() - b.len() - 1;
        assert(name.skip(dot + 1).last() == name.last());
    }
    assert("wav"@.last() == 'v' && "mp3"@.last() == '3' && "flac"@.last() == 'c' && "ogg"@.last()
        == 'g');
}

/// A list of strings as a mathematical value has every string's text in its place.
pub proof fn strings_are_seen_as_they_are(strings: Seq<String>, i: int)
    requires
        0 <= i < strings.len(),
    ensures
        string_texts(strings).len() == strings.len(),
        string_texts(strings)[i] == strings[i]@,
{
}

} // verus!
