//! The audio engine: what the keys do to the audio state, and what the screen sees of it.

use crate::audio::{
    fresh_audio, rewinding_sets_the_delay, smaller, AudioShared, AudioView, WINDOW_SECONDS,
};
use crate::channels::Channel;
use crate::recording::{format_after, format_extension, RecordingFormat};
use crate::text::{decimal, decimal_is_plain, number, push_decimal};
use vstd::prelude::*;
use vstd::string::StringExecFns;

verus! {

/// The player's audio side.
pub struct AudioEngine<S> {
    pub shared: AudioShared<S>,
}

/// The audio state at one moment, for drawing.
pub struct AudioSnapshot<S> {
    pub volume: S,
    pub paused: bool,
    pub bars: Vec<u64>,
    pub status: String,
    pub now_playing: String,
    pub buffered_seconds: u64,
    pub delay_seconds: u64,
    pub recording_requested: bool,
    pub recording_active: bool,
    pub recording_path: String,
    pub recording_format: RecordingFormat,
    pub cava_active: bool,
}

impl<S> AudioSnapshot<S> {
    /// The snapshot shows the state.
    pub open spec fn shows(self, audio: AudioView<S>) -> bool {
        &&& self.volume == audio.volume
        &&& self.paused == audio.paused
        &&& self.bars@ == audio.bars
        &&& self.status@ == audio.status
        &&& self.now_playing@ == audio.now_playing
        &&& self.buffered_seconds == audio.buffered()
        &&& self.delay_seconds == audio.delay()
        &&& self.recording_requested == audio.recording_requested
        &&& self.recording_active == audio.recording_active
        &&& self.recording_path@ == audio.recording_path
        &&& self.recording_format == audio.recording_format
        &&& self.cava_active == audio.cava_active
    }
}

/// The state once a channel is being connected to: the window is empty again.
pub open spec fn tuned<S>(audio: AudioView<S>, channel: Seq<char>) -> AudioView<S> {
    AudioView {
        buffer: Seq::empty(),
        start: 0,
        live: 0,
        play: 0,
        paused: false,
        status: "Connecting to "@ + channel,
        now_playing: channel,
        recording_active: false,
        recording_path: Seq::empty(),
        ..audio
    }
}

/// The state once pause has been switched on or off.
pub open spec fn pause_toggled<S>(audio: AudioView<S>) -> AudioView<S> {
    AudioView {
        paused: !audio.paused,
        status: if audio.paused {
            "Playing"@
        } else {
            "Paused"@
        },
        ..audio
    }
}

/// The state once recording has been asked for or is no longer wanted.
pub open spec fn recording_toggled<S>(audio: AudioView<S>) -> AudioView<S> {
    if audio.recording_requested {
        AudioView {
            recording_requested: false,
            recording_active: false,
            recording_path: Seq::empty(),
            ..audio
        }
    } else {
        AudioView { recording_requested: true, ..audio }
    }
}

/// The state once the next recording format has been chosen.
pub open spec fn format_cycled<S>(audio: AudioView<S>) -> AudioView<S> {
    let format = format_after(audio.recording_format);
    AudioView {
        recording_format: format,
        status: "Recording format: "@ + format_extension(format),
        ..audio
    }
}

/// The state once playback has gone back some minutes.
pub open spec fn minutes_rewound<S>(audio: AudioView<S>, minutes: u64) -> AudioView<S> {
    audio.rewound(minutes * 60).with_status(
        "Rewound "@ + decimal(minutes as nat) + " minute(s)"@,
    )
}

impl<S: Copy> AudioEngine<S> {
    /// An engine for a device's rate and channels, with nothing playing.
    pub fn new(
        sample_rate: u32,
        channels: u16,
        recording_format: RecordingFormat,
        volume: S,
    ) -> (engine: Self)
        requires
            sample_rate * channels * WINDOW_SECONDS <= usize::MAX,
        ensures
            engine.shared@ == fresh_audio(sample_rate, channels, recording_format, volume),
            engine.shared@.wf(),
    {
        AudioEngine { shared: AudioShared::new(sample_rate, channels, recording_format, volume) }
    }

    /// Turns to a channel, whose stream is about to be connected to.
    pub fn play(&mut self, channel: &Channel)
        requires
            old(self).shared@.wf(),
        ensures
            final(self).shared@ == tuned(old(self).shared@, channel.name@),
            final(self).shared@.wf(),
    {
        self.shared.buffer.clear();
        self.shared.start_index = 0;
        self.shared.live_index = 0;
        self.shared.play_index = 0;
        self.shared.paused = false;
        let mut status: String = "Connecting to ".to_owned();
        status.append(channel.name.as_str());
        self.shared.status = status;
        self.shared.now_playing = channel.name.clone();
        self.shared.recording_active = false;
        self.shared.recording_path = String::new();
        assert(self.shared@ =~= tuned(old(self).shared@, channel.name@));
    }

    /// Pauses playback, or resumes it.
    pub fn toggle_pause(&mut self)
        requires
            old(self).shared@.wf(),
        ensures
            final(self).shared@ == pause_toggled(old(self).shared@),
            final(self).shared@.wf(),
    {
        self.shared.paused = !self.shared.paused;
        self.shared.status = if self.shared.paused {
            "Paused".to_owned()
        } else {
            "Playing".to_owned()
        };
    }

    /// Sets the volume that samples are played at.
    pub fn set_volume(&mut self, volume: S)
        requires
            old(self).shared@.wf(),
        ensures
            final(self).shared@ == (AudioView { volume, ..old(self).shared@ }),
            final(self).shared@.wf(),
    {
        self.shared.volume = volume;
    }

    /// Goes back some minutes from the live position, or as far as the window reaches.
    pub fn rewind_minutes(&mut self, minutes: u64)
        requires
            old(self).shared@.wf(),
            minutes * 60 <= u64::MAX,
            minutes * 60 * old(self).shared.sample_rate <= u64::MAX,
            old(self).shared@.samples_in(minutes * 60) <= u64::MAX,
        ensures
            final(self).shared@ == minutes_rewound(old(self).shared@, minutes),
            final(self).shared@.wf(),
            old(self).shared.live_index - minutes * 60 * old(self).shared.sample_rate * old(
                self,
            ).shared.channels >= old(self).shared.start_index ==> final(self).shared.play_index
                == old(self).shared.live_index - minutes * 60 * old(self).shared.sample_rate * old(
                self,
            ).shared.channels,
            old(self).shared.live_index - minutes * 60 * old(self).shared.sample_rate * old(
                self,
            ).shared.channels < old(self).shared.start_index ==> final(self).shared.play_index
                == old(self).shared.start_index,
    {
        self.shared.rewind_seconds(minutes * 60);
        let mut status: String = "Rewound ".to_owned();
        push_decimal(&mut status, minutes);
        status.append(" minute(s)");
        self.shared.status = status;
        assert(self.shared@ =~= minutes_rewound(old(self).shared@, minutes));
    }

    /// Catches up with the stream.
    pub fn go_live(&mut self)
        requires
            old(self).shared@.wf(),
        ensures
            final(self).shared@ == old(self).shared@.gone_live().with_status("Live"@),
            final(self).shared@.wf(),
    {
        self.shared.go_live();
        self.shared.status = "Live".to_owned();
    }

    /// Asks for a recording, or ends it.
    pub fn toggle_recording(&mut self)
        requires
            old(self).shared@.wf(),
        ensures
            final(self).shared@ == recording_toggled(old(self).shared@),
            final(self).shared@.wf(),
    {
        self.shared.recording_requested = !self.shared.recording_requested;
        if !self.shared.recording_requested {
            self.shared.recording_active = false;
            self.shared.recording_path = String::new();
        }
        assert(self.shared@ =~= recording_toggled(old(self).shared@));
    }

    /// Chooses the next recording format, and says which it is.
    pub fn cycle_recording_format(&mut self) -> (format: RecordingFormat)
        requires
            old(self).shared@.wf(),
        ensures
            final(self).shared@ == format_cycled(old(self).shared@),
            final(self).shared@.wf(),
            format == format_after(old(self).shared@.recording_format),
    {
        let format: RecordingFormat = self.shared.recording_format.next();
        self.shared.recording_format = format;
        let mut status: String = "Recording format: ".to_owned();
        status.append(format.extension());
        self.shared.status = status;
        format
    }

    /// The state at this moment.
    pub fn snapshot(&self) -> (snapshot: AudioSnapshot<S>)
        requires
            self.shared@.wf(),
        ensures
            snapshot.shows(self.shared@),
    {
        AudioSnapshot {
            volume: self.shared.volume,
            paused: self.shared.paused,
            bars: self.shared.bars.clone(),
            status: self.shared.status.clone(),
            now_playing: self.shared.now_playing.clone(),
            buffered_seconds: self.shared.buffered_seconds(),
            delay_seconds: self.shared.delay_seconds(),
            recording_requested: self.shared.recording_requested,
            recording_active: self.shared.recording_active,
            recording_path: self.shared.recording_path.clone(),
            recording_format: self.shared.recording_format,
            cava_active: self.shared.cava_active,
        }
    }
}

/// Pausing and resuming brings back everything but the status: playback goes on where it was.
pub proof fn pausing_twice_changes_the_status_only<S>(audio: AudioView<S>)
    ensures
        pause_toggled(pause_toggled(audio)) == (AudioView {
            status: pause_toggled(pause_toggled(audio)).status,
            ..audio
        }),
{
}

/// While no recording runs, asking for one and taking that back leaves everything as it was.
pub proof fn recording_request_can_be_taken_back<S>(audio: AudioView<S>)
    requires
        !audio.recording_requested,
        !audio.recording_active,
        audio.recording_path.len() == 0,
    ensures
        recording_toggled(recording_toggled(audio)) == audio,
{
    assert(recording_toggled(recording_toggled(audio)) =~= audio);
}

/// Four steps through the formats bring back the first.
pub proof fn format_cycle_closes<S>(audio: AudioView<S>)
    ensures
        format_cycled(format_cycled(format_cycled(format_cycled(audio)))).recording_format
            == audio.recording_format,
{
}

/// Turning to a channel forgets what was there before, so that nothing of it is heard.
pub proof fn tuning_starts_afresh<S>(audio: AudioView<S>, channel: Seq<char>)
    requires
        audio.wf(),
    ensures
        tuned(audio, channel).wf(),
        tuned(audio, channel).silent(),
        tuned(audio, channel).buffered() == 0,
        tuned(audio, channel).delay() == 0,
{
    crate::audio::going_live_ends_the_delay(tuned(audio, channel));
}

/// Going back some minutes puts playback that far behind the stream, or as far as is kept.
pub proof fn rewinding_minutes_sets_the_delay<S>(audio: AudioView<S>, minutes: u64)
    requires
        audio.wf(),
    ensures
        minutes_rewound(audio, minutes).delay() == smaller(minutes * 60, audio.buffered()),
        !minutes_rewound(audio, minutes).paused,
{
    rewinding_sets_the_delay(audio, minutes * 60);
}

/// Going back some minutes puts playback sixty times as many seconds behind the stream as minutes
/// were asked for, counted in what the device plays over all its channels, or to the first sample
/// that is kept; playback goes on, the status tells the minutes, and nothing else changes.
pub proof fn minutes_are_sixty_seconds<S>(audio: AudioView<S>, minutes: u64)
    requires
        audio.wf(),
    ensures
        ({
            let after = minutes_rewound(audio, minutes);
            let back = minutes * 60 * audio.sample_rate * audio.channels;
            &&& audio.live - back >= audio.start ==> after.play == audio.live - back
            &&& audio.live - back < audio.start ==> after.play == audio.start
            &&& !after.paused
            &&& after.status == "Rewound "@ + decimal(minutes as nat) + " minute(s)"@
            &&& number(decimal(minutes as nat)) == Some(minutes)
            &&& after == (AudioView {
                play: after.play,
                paused: after.paused,
                status: after.status,
                ..audio
            })
        }),
{
    decimal_is_plain(minutes);
    crate::audio::rewinding_counts_every_channel(audio, minutes * 60);
}

/// Turning to a channel empties the window, puts playback at its beginning and lets it go on, shows
/// the channel's name and that it is being connected to, and shows no recording any more. What was
/// asked for, the volume, the bars and the device stay as they are.
pub proof fn tuning_shows_the_channel<S>(audio: AudioView<S>, channel: Seq<char>)
    ensures
        ({
            let after = tuned(audio, channel);
            &&& after.buffer.len() == 0
            &&& after.start == 0 && after.play == 0 && after.live == 0
            &&& !after.paused
            &&& after.now_playing == channel
            &&& after.status == "Connecting to "@ + channel
            &&& !after.recording_active && after.recording_path.len() == 0
            &&& after == (AudioView {
                buffer: after.buffer,
                start: after.start,
                live: after.live,
                play: after.play,
                paused: after.paused,
                status: after.status,
                now_playing: after.now_playing,
                recording_active: after.recording_active,
                recording_path: after.recording_path,
                ..audio
            })
        }),
{
}

/// Pausing turns playback off where it was on and on where it was off, says so, and moves nothing.
pub proof fn pausing_says_what_it_does<S>(audio: AudioView<S>)
    ensures
        !audio.paused ==> pause_toggled(audio) == (AudioView {
            paused: true,
            status: "Paused"@,
            ..audio
        }),
        audio.paused ==> pause_toggled(audio) == (AudioView {
            paused: false,
            status: "Playing"@,
            ..audio
        }),
{
}

/// A recording that was not asked for is asked for, and changes nothing else yet; one that was is
/// no longer, and no longer shown.
pub proof fn recording_goes_by_the_request<S>(audio: AudioView<S>)
    ensures
        !audio.recording_requested ==> recording_toggled(audio) == (AudioView {
            recording_requested: true,
            ..audio
        }),
        audio.recording_requested ==> recording_toggled(audio) == (AudioView {
            recording_requested: false,
            recording_active: false,
            recording_path: Seq::empty(),
            ..audio
        }),
{
}

/// Cycling the format goes from plain samples to MP3, FLAC and Ogg and back, says which it is by its
/// extension, and changes nothing else.
pub proof fn cycling_goes_through_the_formats<S>(audio: AudioView<S>)
    ensures
        audio.recording_format == RecordingFormat::Wav ==> format_cycled(audio) == (AudioView {
            recording_format: RecordingFormat::Mp3,
            status: "Recording format: "@ + "mp3"@,
            ..audio
        }),
        audio.recording_format == RecordingFormat::Mp3 ==> format_cycled(audio) == (AudioView {
            recording_format: RecordingFormat::Flac,
            status: "Recording format: "@ + "flac"@,
            ..audio
        }),
        audio.recording_format == RecordingFormat::Flac ==> format_cycled(audio) == (AudioView {
            recording_format: RecordingFormat::Ogg,
            status: "Recording format: "@ + "ogg"@,
            ..audio
        }),
        audio.recording_format == RecordingFormat::Ogg ==> format_cycled(audio) == (AudioView {
            recording_format: RecordingFormat::Wav,
            status: "Recording format: "@ + "wav"@,
            ..audio
        }),
{
}

/// A snapshot shows the state as it is, and counts its seconds in what the device plays over all its
/// channels.
pub proof fn snapshots_show_the_state<S>(snapshot: AudioSnapshot<S>, audio: AudioView<S>)
    requires
        audio.wf(),
        snapshot.shows(audio),
    ensures
        snapshot.volume == audio.volume,
        snapshot.paused == audio.paused,
        snapshot.bars@ == audio.bars,
        snapshot.status@ == audio.status,
        snapshot.now_playing@ == audio.now_playing,
        snapshot.recording_requested == audio.recording_requested,
        snapshot.recording_active == audio.recording_active,
        snapshot.recording_path@ == audio.recording_path,
        snapshot.recording_format == audio.recording_format,
        snapshot.cava_active == audio.cava_active,
        audio.sample_rate > 0 && audio.channels > 0 ==> {
            let behind = audio.live - audio.play;
            let stored = audio.live - audio.start;
            &&& snapshot.delay_seconds * audio.sample_rate * audio.channels <= behind
            &&& behind < (snapshot.delay_seconds + 1) * audio.sample_rate * audio.channels
            &&& snapshot.buffered_seconds * audio.sample_rate * audio.channels <= stored
            &&& stored < (snapshot.buffered_seconds + 1) * audio.sample_rate * audio.channels
        },
{
    crate::audio::seconds_are_counted_by_samples(audio);
}

} // verus!
