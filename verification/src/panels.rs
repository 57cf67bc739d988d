//! What the panels of the screen say.

use crate::audio::WINDOW_SECONDS;
use crate::engine::AudioSnapshot;
use crate::recording::{format_extension, string_texts, RecordingFormat};
use crate::text::{decimal, decimal_is_plain, number, push_decimal};
use vstd::prelude::*;
use vstd::string::StringExecFns;

verus! {

/// What is said about recording: off, about to begin, or where it goes.
pub open spec fn recording_note(requested: bool, active: bool, path: Seq<char>) -> Seq<char> {
    if !requested {
        "off"@
    } else if active {
        path
    } else {
        "arming"@
    }
}

/// The lines of the panel on what is playing.
pub open spec fn now_playing_text<S>(
    snapshot: AudioSnapshot<S>,
    theme: Seq<char>,
    volume: Seq<char>,
) -> Seq<Seq<char>> {
    seq![
        snapshot.now_playing@,
        "Status: "@ + if snapshot.paused {
            "Paused"@
        } else {
            snapshot.status@
        },
        "Volume: "@ + volume,
        "Theme: "@ + theme,
        "Format: "@ + format_extension(snapshot.recording_format),
        "Recording: "@ + recording_note(
            snapshot.recording_requested,
            snapshot.recording_active,
            snapshot.recording_path@,
        ),
        "Visualizer: "@ + if snapshot.cava_active {
            "cava"@
        } else {
            "internal fallback"@
        },
    ]
}

fn joined(label: &str, text: &str) -> (line: String)
    ensures
        line@ == label@ + text@,
{
    let mut line: String = label.to_owned();
    line.append(text);
    line
}

/// The lines of the panel on what is playing; the first is the channel's name. `volume` is the
/// volume as it is to be shown.
pub fn now_playing_lines<S>(
    snapshot: &AudioSnapshot<S>,
    theme: &str,
    volume: &str,
) -> (lines: Vec<String>)
    ensures
        string_texts(lines@) == now_playing_text(*snapshot, theme@, volume@),
        lines@.len() == 7,
        forall|i: int|
            0 <= i < 7 ==> (#[trigger] lines@[i])@ == now_playing_text(
                *snapshot,
                theme@,
                volume@,
            )[i],
{
    let status: &str = if snapshot.paused {
        "Paused"
    } else {
        snapshot.status.as_str()
    };
    let recording: &str = if !snapshot.recording_requested {
        "off"
    } else if snapshot.recording_active {
        snapshot.recording_path.as_str()
    } else {
        "arming"
    };
    let visualizer: &str = if snapshot.cava_active {
        "cava"
    } else {
        "internal fallback"
    };
    let lines: Vec<String> = vec![
        snapshot.now_playing.clone(),
        joined("Status: ", status),
        joined("Volume: ", volume),
        joined("Theme: ", theme),
        joined("Format: ", snapshot.recording_format.extension()),
        joined("Recording: ", recording),
        joined("Visualizer: ", visualizer),
    ];
    assert(string_texts(lines@) =~= now_playing_text(*snapshot, theme@, volume@));
    assert forall|i: int| 0 <= i < 7 implies (#[trigger] lines@[i])@ == now_playing_text(
        *snapshot,
        theme@,
        volume@,
    )[i] by {
        assert(string_texts(lines@)[i] == lines@[i]@);
    }
    lines
}

/// The title of the gauge that shows the window.
pub open spec fn window_title(delay: u64, buffered: u64) -> Seq<char> {
    "Buffer  live-"@ + decimal(delay as nat) + "s / stored "@ + decimal(buffered as nat) + "s"@
}

/// The title of the gauge that shows the window.
pub fn buffer_title(delay: u64, buffered: u64) -> (title: String)
    ensures
        title@ == window_title(delay, buffered),
{
    let mut title: String = "Buffer  live-".to_owned();
    push_decimal(&mut title, delay);
    title.append("s / stored ");
    push_decimal(&mut title, buffered);
    title.append("s");
    title
}

/// How many seconds of the window the gauge shows as filled.
pub fn gauge_seconds(delay: u64) -> (seconds: u64)
    ensures
        seconds == (if delay < WINDOW_SECONDS {
            delay
        } else {
            WINDOW_SECONDS
        }),
{
    if delay < WINDOW_SECONDS {
        delay
    } else {
        WINDOW_SECONDS
    }
}

/// The lines of the panel on the controls.
pub open spec fn help_text(delay: u64) -> Seq<Seq<char>> {
    seq![
        "↑/↓ or j/k select channel"@,
        "Enter play  Space pause  +/- volume"@,
        "1/2/3 rewind minutes  l live"@,
        "t/T theme  m format  r record  q quit"@,
        "Mode: "@ + if delay == 0 {
            "live"@
        } else {
            "timeshift"@
        },
    ]
}

/// The lines of the panel on the controls; the last tells whether playback is behind the stream.
pub fn help_lines(delay: u64) -> (lines: Vec<String>)
    ensures
        string_texts(lines@) == help_text(delay),
        lines@.len() == 5,
        forall|i: int| 0 <= i < 5 ==> (#[trigger] lines@[i])@ == help_text(delay)[i],
{
    let mode: &str = if delay == 0 {
        "live"
    } else {
        "timeshift"
    };
    let lines: Vec<String> = vec![
        "↑/↓ or j/k select channel".to_owned(),
        "Enter play  Space pause  +/- volume".to_owned(),
        "1/2/3 rewind minutes  l live".to_owned(),
        "t/T theme  m format  r record  q quit".to_owned(),
        joined("Mode: ", mode),
    ];
    assert(string_texts(lines@) =~= help_text(delay));
    assert forall|i: int| 0 <= i < 5 implies (#[trigger] lines@[i])@ == help_text(delay)[i] by {
        assert(string_texts(lines@)[i] == lines@[i]@);
    }
    lines
}

/// The columns or rows that a border leaves of a panel.
pub fn inside_border(size: u16) -> (inner: u16)
    ensures
        inner == (if size < 2 {
            0
        } else {
            size - 2
        }),
{
    size.saturating_sub(2)
}

/// The panel shows, line by line, the channel, the status, the volume, the theme, the format, the
/// recording and what drives the visualizer. A pause is shown in place of any status, a recording
/// that is not asked for as off, and one that has not begun as arming.
pub proof fn the_panel_shows_the_state<S>(
    snapshot: AudioSnapshot<S>,
    theme: Seq<char>,
    volume: Seq<char>,
)
    ensures
        ({
            let lines = now_playing_text(snapshot, theme, volume);
            let asked = snapshot.recording_requested;
            let runs = snapshot.recording_active;
            &&& lines.len() == 7
            &&& lines[0] == snapshot.now_playing@
            &&& snapshot.paused ==> lines[1] == "Status: "@ + "Paused"@
            &&& !snapshot.paused ==> lines[1] == "Status: "@ + snapshot.status@
            &&& lines[2] == "Volume: "@ + volume
            &&& lines[3] == "Theme: "@ + theme
            &&& snapshot.recording_format == RecordingFormat::Wav ==> lines[4] == "Format: "@
                + "wav"@
            &&& snapshot.recording_format == RecordingFormat::Mp3 ==> lines[4] == "Format: "@
                + "mp3"@
            &&& snapshot.recording_format == RecordingFormat::Flac ==> lines[4] == "Format: "@
                + "flac"@
            &&& snapshot.recording_format == RecordingFormat::Ogg ==> lines[4] == "Format: "@
                + "ogg"@
            &&& !asked ==> lines[5] == "Recording: "@ + "off"@
            &&& asked && runs ==> lines[5] == "Recording: "@ + snapshot.recording_path@
            &&& asked && !runs ==> lines[5] == "Recording: "@ + "arming"@
            &&& snapshot.cava_active ==> lines[6] == "Visualizer: "@ + "cava"@
            &&& !snapshot.cava_active ==> lines[6] == "Visualizer: "@ + "internal fallback"@
        }),
{
}

/// The title of the gauge tells the delay and then what is stored, in seconds, and both read back as
/// the numbers they are.
pub proof fn the_title_tells_the_seconds(delay: u64, buffered: u64)
    ensures
        exists|first: Seq<char>, second: Seq<char>|
            {
                &&& window_title(delay, buffered) == #[trigger] ("Buffer  live-"@ + first
                    + "s / stored "@ + second + "s"@)
                &&& number(first) == Some(delay)
                &&& number(second) == Some(buffered)
            },
{
    decimal_is_plain(delay);
    decimal_is_plain(buffered);
    let first = decimal(delay as nat);
    let second = decimal(buffered as nat);
    assert(window_title(delay, buffered) == "Buffer  live-"@ + first + "s / stored "@ + second
        + "s"@);
}

/// The help names all keys, and tells whether playback is live, which it is just where there is no
/// delay.
pub proof fn the_help_tells_the_mode(delay: u64)
    ensures
        help_text(delay).len() == 5,
        help_text(delay)[0] == "↑/↓ or j/k select channel"@,
        help_text(delay)[1] == "Enter play  Space pause  +/- volume"@,
        help_text(delay)[2] == "1/2/3 rewind minutes  l live"@,
        help_text(delay)[3] == "t/T theme  m format  r record  q quit"@,
        delay == 0 ==> help_text(delay)[4] == "Mode: "@ + "live"@,
        delay > 0 ==> help_text(delay)[4] == "Mode: "@ + "timeshift"@,
{
}

} // verus!
