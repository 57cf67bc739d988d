//! The audio state: a window over the live stream that playback moves through.

use crate::recording::RecordingFormat;
use std::collections::VecDeque;
use vstd::prelude::*;

verus! {

/// How many seconds of the stream are kept.
pub const WINDOW_SECONDS: u64 = 180;

/// How many bars the visualizer has.
pub const BAR_COUNT: usize = 64;

/// How high a bar can be.
pub const BAR_LIMIT: u64 = 100;

/// What the stream worker, the audio callback and the screen share. Samples and the volume are
/// of a type that is only carried through here.
pub struct AudioShared<S> {
    /// The samples of the stream that are kept.
    pub buffer: VecDeque<S>,
    /// The position in the stream of the first sample that is kept.
    pub start_index: u64,
    /// The position in the stream behind the last sample that arrived.
    pub live_index: u64,
    /// The position in the stream of the sample that is played next.
    pub play_index: u64,
    /// How many samples are kept at most.
    pub max_samples: usize,
    pub sample_rate: u32,
    pub channels: u16,
    pub volume: S,
    pub paused: bool,
    pub bars: Vec<u64>,
    pub status: String,
    pub now_playing: String,
    pub recording_requested: bool,
    pub recording_active: bool,
    pub recording_path: String,
    pub recording_format: RecordingFormat,
    pub cava_active: bool,
}

/// The audio state as a mathematical value.
#[verifier::ext_equal]
pub struct AudioView<S> {
    pub buffer: Seq<S>,
    pub start: int,
    pub live: int,
    pub play: int,
    pub max_samples: int,
    pub sample_rate: int,
    pub channels: int,
    pub volume: S,
    pub paused: bool,
    pub bars: Seq<u64>,
    pub status: Seq<char>,
    pub now_playing: Seq<char>,
    pub recording_requested: bool,
    pub recording_active: bool,
    pub recording_path: Seq<char>,
    pub recording_format: RecordingFormat,
    pub cava_active: bool,
}

impl<S> View for AudioShared<S> {
    type V = AudioView<S>;

    open spec fn view(&self) -> AudioView<S> {
        AudioView {
            buffer: self.buffer@,
            start: self.start_index as int,
            live: self.live_index as int,
            play: self.play_index as int,
            max_samples: self.max_samples as int,
            sample_rate: self.sample_rate as int,
            channels: self.channels as int,
            volume: self.volume,
            paused: self.paused,
            bars: self.bars@,
            status: self.status@,
            now_playing: self.now_playing@,
            recording_requested: self.recording_requested,
            recording_active: self.recording_active,
            recording_path: self.recording_path@,
            recording_format: self.recording_format,
            cava_active: self.cava_active,
        }
    }
}

/// A full row of bars, none too high.
pub open spec fn are_bars(bars: Seq<u64>) -> bool {
    bars.len() == BAR_COUNT && forall|i: int| 0 <= i < bars.len() ==> #[trigger] bars[i] <= BAR_LIMIT
}

/// What is kept of a run of samples: the last `limit` of them. Nothing is ever dropped for a
/// limit of 0, which only a device without channels or without a sample rate has.
pub open spec fn kept<S>(samples: Seq<S>, limit: int) -> Seq<S> {
    if 0 < limit < samples.len() {
        samples.skip(samples.len() - limit)
    } else {
        samples
    }
}

/// The larger of two numbers.
pub open spec fn larger(a: int, b: int) -> int {
    if a < b {
        b
    } else {
        a
    }
}

impl<S> AudioView<S> {
    /// The position of the first kept sample, given what is kept and what has arrived.
    pub open spec fn start_for(self, kept: int, live: int) -> int {
        if self.max_samples > 0 {
            live - kept
        } else if live > 0 {
            1
        } else {
            0
        }
    }

    /// What always holds: the buffer is the window that ends at the live position, playback is
    /// inside it, and the bars are in their range.
    pub open spec fn wf(self) -> bool {
        &&& 0 <= self.start <= self.play <= self.live
        &&& self.sample_rate >= 0 && self.channels >= 0
        &&& self.max_samples == self.sample_rate * self.channels * WINDOW_SECONDS
        &&& self.max_samples > 0 ==> self.buffer.len() <= self.max_samples
        &&& self.max_samples == 0 ==> self.buffer.len() == self.live
        &&& self.start == self.start_for(self.buffer.len() as int, self.live)
        &&& are_bars(self.bars)
    }

    /// The sample at a position of the stream, for positions inside the window.
    pub open spec fn sample_at(self, position: int) -> S {
        self.buffer[position - self.start]
    }

    /// The state once samples have arrived: the window moves along, and playback with it where
    /// it would fall out of the window or had nothing to play. Without a monitor the bars show
    /// the samples.
    pub open spec fn appended(self, samples: Seq<S>, fallback_bars: Seq<u64>) -> AudioView<S> {
        let buffer = kept(self.buffer + samples, self.max_samples);
        let live = self.live + samples.len();
        let start = self.start_for(buffer.len() as int, live);
        AudioView {
            buffer,
            start,
            live,
            play: if self.live == self.start {
                start
            } else {
                larger(self.play, start)
            },
            bars: if !self.cava_active && samples.len() > 0 {
                fallback_bars
            } else {
                self.bars
            },
            ..self
        }
    }

    /// Nothing can be played: playback is paused, or has caught up with the stream.
    pub open spec fn silent(self) -> bool {
        self.paused || self.play >= self.live
    }

    /// The sample that is played next.
    pub open spec fn next_played(self) -> Option<S> {
        if self.silent() {
            None
        } else {
            Some(self.sample_at(self.play))
        }
    }

    /// The state once the next sample has been played.
    pub open spec fn advanced(self) -> AudioView<S> {
        if self.silent() {
            self
        } else {
            AudioView { play: self.play + 1, ..self }
        }
    }

    /// How many samples make up a time.
    pub open spec fn samples_in(self, seconds: int) -> int {
        seconds * self.sample_rate * self.channels
    }

    /// The state once playback has gone back to `seconds` before the live position, or as far
    /// as the window reaches.
    pub open spec fn rewound(self, seconds: int) -> AudioView<S> {
        AudioView {
            play: larger(self.live - self.samples_in(seconds), self.start),
            paused: false,
            ..self
        }
    }

    /// The state once playback has caught up with the stream.
    pub open spec fn gone_live(self) -> AudioView<S> {
        AudioView { play: self.live, paused: false, ..self }
    }

    /// How many whole seconds a number of samples makes.
    pub open spec fn seconds_in(self, samples: int) -> int {
        if self.sample_rate == 0 || self.channels == 0 {
            0
        } else {
            samples / self.sample_rate / self.channels
        }
    }

    /// How many seconds are kept.
    pub open spec fn buffered(self) -> int {
        self.seconds_in(self.live - self.start)
    }

    /// How many seconds playback is behind the stream.
    pub open spec fn delay(self) -> int {
        self.seconds_in(self.live - self.play)
    }

    /// The state with another line of status.
    pub open spec fn with_status(self, status: Seq<char>) -> AudioView<S> {
        AudioView { status, ..self }
    }
}

/// The state before anything is played.
pub open spec fn fresh_audio<S>(
    sample_rate: u32,
    channels: u16,
    recording_format: RecordingFormat,
    volume: S,
) -> AudioView<S> {
    AudioView {
        buffer: Seq::empty(),
        start: 0,
        live: 0,
        play: 0,
        max_samples: sample_rate * channels * WINDOW_SECONDS,
        sample_rate: sample_rate as int,
        channels: channels as int,
        volume,
        paused: false,
        bars: Seq::new(BAR_COUNT as nat, |i: int| 0u64),
        status: "Idle"@,
        now_playing: "Nothing playing"@,
        recording_requested: false,
        recording_active: false,
        recording_path: Seq::empty(),
        recording_format,
        cava_active: false,
    }
}

impl<S: Copy> AudioShared<S> {
    /// The state before anything is played, for a device's rate and channels.
    pub fn new(
        sample_rate: u32,
        channels: u16,
        recording_format: RecordingFormat,
        volume: S,
    ) -> (shared: Self)
        requires
            sample_rate * channels * WINDOW_SECONDS <= usize::MAX,
        ensures
            shared@ == fresh_audio(sample_rate, channels, recording_format, volume),
            shared@.wf(),
            shared.buffer@.len() == 0,
            shared.start_index == 0,
            shared.live_index == 0,
            shared.play_index == 0,
            shared.max_samples == sample_rate * channels * 180,
            shared.sample_rate == sample_rate,
            shared.channels == channels,
            shared.volume == volume,
            shared.recording_format == recording_format,
    {
        assert(0 <= sample_rate * channels <= 0xffff_ffff * 0xffff) by (nonlinear_arith)
            requires
                0 <= sample_rate <= 0xffff_ffff,
                0 <= channels <= 0xffff,
        ;
        let max_samples: usize = (sample_rate as u64 * channels as u64 * WINDOW_SECONDS) as usize;
        let shared: AudioShared<S> = AudioShared {
            buffer: VecDeque::new(),
            start_index: 0,
            live_index: 0,
            play_index: 0,
            max_samples,
            sample_rate,
            channels,
            volume,
            paused: false,
            bars: vec![0; BAR_COUNT],
            status: "Idle".to_owned(),
            now_playing: "Nothing playing".to_owned(),
            recording_requested: false,
            recording_active: false,
            recording_path: String::new(),
            recording_format,
            cava_active: false,
        };
        assert(shared@ =~= fresh_audio(sample_rate, channels, recording_format, volume));
        shared
    }

    /// Takes in samples that have arrived. `fallback_bars` is how the bars follow these samples
    /// where no monitor drives them.
    pub fn append_samples(&mut self, samples: &[S], fallback_bars: Vec<u64>)
        requires
            old(self)@.wf(),
            old(self).live_index + samples@.len() <= u64::MAX,
            !old(self).cava_active && samples@.len() > 0 ==> are_bars(fallback_bars@),
        ensures
            final(self)@ == old(self)@.appended(samples@, fallback_bars@),
            final(self)@.wf(),
            final(self).live_index == old(self).live_index + samples@.len(),
            forall|i: int|
                0 <= i < final(self).buffer@.len() ==> #[trigger] final(self).buffer@[i] == (
                old(self).buffer@ + samples@)[old(self).buffer@.len() + samples@.len()
                    - final(self).buffer@.len() + i],
            old(self).max_samples > 0 ==> final(self).buffer@.len() == final(self).live_index
                - final(self).start_index,
            old(self).live_index != old(self).start_index && old(self).play_index
                >= final(self).start_index ==> final(self).play_index == old(self).play_index,
            old(self).live_index == old(self).start_index || old(self).play_index
                < final(self).start_index ==> final(self).play_index == final(self).start_index,
    {
        let was_empty: bool = self.live_index == self.start_index;
        let ghost before = self@;
        let mut i: usize = 0;
        assert(samples@.take(0) =~= Seq::<S>::empty());
        assert(before.buffer + samples@.take(0) =~= before.buffer);
        while i < samples.len()
            invariant
                i <= samples@.len(),
                before.wf(),
                before == old(self)@,
                before.live + samples@.len() <= u64::MAX,
                self@ == (AudioView {
                    buffer: kept(before.buffer + samples@.take(i as int), before.max_samples),
                    start: before.start_for(
                        kept(before.buffer + samples@.take(i as int), before.max_samples).len() as int,
                        before.live + i,
                    ),
                    live: before.live + i,
                    ..before
                }),
            decreases samples@.len() - i,
        {
            let ghost run = before.buffer + samples@.take(i as int);
            let ghost longer = before.buffer + samples@.take(i + 1);
            assert(longer =~= run.push(samples@[i as int]));
            if self.buffer.len() == self.max_samples {
                self.buffer.pop_front();
                self.start_index = self.start_index + 1;
            }
            self.buffer.push_back(samples[i]);
            self.live_index = self.live_index + 1;
            assert(self.buffer@ =~= kept(longer, before.max_samples));
            i = i + 1;
        }
        assert(samples@.take(i as int) =~= samples@);
        if was_empty {
            self.play_index = self.start_index;
        }
        if self.play_index < self.start_index {
            self.play_index = self.start_index;
        }
        if !self.cava_active && samples.len() > 0 {
            self.bars = fallback_bars;
        }
    }

    /// The sample to play now, if there is one; playback moves on behind it.
    pub fn next_sample(&mut self) -> (sample: Option<S>)
        requires
            old(self)@.wf(),
        ensures
            sample == old(self)@.next_played(),
            final(self)@ == old(self)@.advanced(),
            final(self)@.wf(),
            !old(self).paused && old(self).play_index < old(self).live_index ==> sample == Some(
                old(self).buffer@[old(self).play_index - old(self).start_index],
            ) && final(self).play_index == old(self).play_index + 1,
            old(self).paused || old(self).play_index >= old(self).live_index ==> sample is None
                && final(self).play_index == old(self).play_index,
    {
        if self.paused || self.play_index >= self.live_index {
            return None;
        }
        assert(self.play_index - self.start_index < self.buffer.len());
        let offset: usize = (self.play_index - self.start_index) as usize;
        let sample: S = self.buffer[offset];
        self.play_index = self.play_index + 1;
        Some(sample)
    }

    /// Goes back to `seconds` before the live position, or as far as the window reaches.
    pub fn rewind_seconds(&mut self, seconds: u64)
        requires
            old(self)@.wf(),
            seconds * old(self).sample_rate <= u64::MAX,
            old(self)@.samples_in(seconds as int) <= u64::MAX,
        ensures
            final(self)@ == old(self)@.rewound(seconds as int),
            final(self)@.wf(),
            old(self).live_index - seconds * old(self).sample_rate * old(self).channels >= old(
                self,
            ).start_index ==> final(self).play_index == old(self).live_index - seconds * old(
                self,
            ).sample_rate * old(self).channels,
            old(self).live_index - seconds * old(self).sample_rate * old(self).channels < old(
                self,
            ).start_index ==> final(self).play_index == old(self).start_index,
            !final(self).paused,
    {
        let delta: u64 = seconds * self.sample_rate as u64 * self.channels as u64;
        let target: u64 = self.live_index.saturating_sub(delta);
        self.play_index = if target < self.start_index {
            self.start_index
        } else {
            target
        };
        self.paused = false;
        proof {
            lemma_samples_in_is_nonnegative(old(self)@, seconds as int);
        }
    }

    /// Catches up with the stream.
    pub fn go_live(&mut self)
        requires
            old(self)@.wf(),
        ensures
            final(self)@ == old(self)@.gone_live(),
            final(self)@.wf(),
            final(self).play_index == old(self).live_index,
            !final(self).paused,
    {
        self.play_index = self.live_index;
        self.paused = false;
    }

    /// How many seconds are kept.
    pub fn buffered_seconds(&self) -> (seconds: u64)
        requires
            self@.wf(),
        ensures
            seconds == self@.buffered(),
            self.sample_rate > 0 && self.channels > 0 ==> seconds * self.sample_rate * self.channels
                <= self.live_index - self.start_index < (seconds + 1) * self.sample_rate
                * self.channels,
    {
        proof {
            seconds_are_counted_by_samples(self@);
        }
        if self.sample_rate == 0 || self.channels == 0 {
            return 0;
        }
        (self.live_index - self.start_index) / self.sample_rate as u64 / self.channels as u64
    }

    /// How many seconds playback is behind the stream.
    pub fn delay_seconds(&self) -> (seconds: u64)
        requires
            self@.wf(),
        ensures
            seconds == self@.delay(),
            self.sample_rate > 0 && self.channels > 0 ==> seconds * self.sample_rate * self.channels
                <= self.live_index - self.play_index < (seconds + 1) * self.sample_rate
                * self.channels,
    {
        proof {
            seconds_are_counted_by_samples(self@);
        }
        if self.sample_rate == 0 || self.channels == 0 {
            return 0;
        }
        (self.live_index - self.play_index) / self.sample_rate as u64 / self.channels as u64
    }
}

proof fn lemma_samples_in_is_nonnegative<S>(audio: AudioView<S>, seconds: int)
    requires
        seconds >= 0,
        audio.sample_rate >= 0,
        audio.channels >= 0,
    ensures
        audio.samples_in(seconds) >= 0,
{
    assert(seconds * audio.sample_rate >= 0) by (nonlinear_arith)
        requires
            seconds >= 0,
            audio.sample_rate >= 0,
    ;
    let rate = seconds * audio.sample_rate;
    assert(rate * audio.channels >= 0) by (nonlinear_arith)
        requires
            rate >= 0,
            audio.channels >= 0,
    ;
}

/// A device that plays: it has a sample rate and channels.
pub open spec fn plays<S>(audio: AudioView<S>) -> bool {
    audio.sample_rate > 0 && audio.channels > 0
}

proof fn lemma_playing_window<S>(audio: AudioView<S>)
    requires
        audio.wf(),
        plays(audio),
    ensures
        audio.max_samples > 0,
        audio.live - audio.start == audio.buffer.len(),
        audio.seconds_in(audio.max_samples) == WINDOW_SECONDS,
{
    let frame = audio.sample_rate * audio.channels;
    assert(frame > 0) by (nonlinear_arith)
        requires
            frame == audio.sample_rate * audio.channels,
            audio.sample_rate > 0,
            audio.channels > 0,
    ;
    vstd::arithmetic::div_mod::lemma_div_denominator(
        audio.max_samples,
        audio.sample_rate,
        audio.channels,
    );
    vstd::arithmetic::div_mod::lemma_div_multiples_vanish(WINDOW_SECONDS as int, frame);
    assert(frame * WINDOW_SECONDS == WINDOW_SECONDS * frame) by (nonlinear_arith);
}

proof fn lemma_seconds_grow<S>(audio: AudioView<S>, fewer: int, more: int)
    requires
        plays(audio),
        0 <= fewer <= more,
    ensures
        0 <= audio.seconds_in(fewer) <= audio.seconds_in(more),
{
    vstd::arithmetic::div_mod::lemma_div_is_ordered(fewer, more, audio.sample_rate);
    vstd::arithmetic::div_mod::lemma_div_pos_is_pos(fewer, audio.sample_rate);
    vstd::arithmetic::div_mod::lemma_div_is_ordered(
        fewer / audio.sample_rate,
        more / audio.sample_rate,
        audio.channels,
    );
    vstd::arithmetic::div_mod::lemma_div_pos_is_pos(fewer / audio.sample_rate, audio.channels);
}

/// At most the window's length is kept, and playback is never further behind than what is kept.
pub proof fn delay_is_within_the_window<S>(audio: AudioView<S>)
    requires
        audio.wf(),
    ensures
        0 <= audio.delay() <= audio.buffered() <= WINDOW_SECONDS,
{
    if audio.sample_rate != 0 && audio.channels != 0 {
        lemma_playing_window(audio);
        lemma_seconds_grow(audio, audio.live - audio.play, audio.live - audio.start);
        lemma_seconds_grow(audio, audio.live - audio.start, audio.max_samples);
    }
}

/// The smaller of two numbers.
pub open spec fn smaller(a: int, b: int) -> int {
    if a < b {
        a
    } else {
        b
    }
}

/// Rewinding puts playback exactly that many seconds behind the stream, or as many as are kept.
pub proof fn rewinding_sets_the_delay<S>(audio: AudioView<S>, seconds: int)
    requires
        audio.wf(),
        seconds >= 0,
    ensures
        audio.rewound(seconds).delay() == smaller(seconds, audio.buffered()),
{
    if audio.sample_rate != 0 && audio.channels != 0 {
        lemma_samples_in_is_nonnegative(audio, seconds);
        let asked = audio.samples_in(seconds);
        let stored = audio.live - audio.start;
        let frame = audio.sample_rate * audio.channels;
        assert(frame > 0) by (nonlinear_arith)
            requires
                frame == audio.sample_rate * audio.channels,
                audio.sample_rate > 0,
                audio.channels > 0,
        ;
        assert(asked == seconds * frame) by (nonlinear_arith)
            requires
                asked == seconds * audio.sample_rate * audio.channels,
                frame == audio.sample_rate * audio.channels,
        ;
        vstd::arithmetic::div_mod::lemma_div_denominator(
            asked,
            audio.sample_rate,
            audio.channels,
        );
        vstd::arithmetic::div_mod::lemma_div_multiples_vanish(seconds, frame);
        assert(frame * seconds == seconds * frame) by (nonlinear_arith);
        assert(audio.seconds_in(asked) == seconds);
        if asked <= stored {
            lemma_seconds_grow(audio, asked, stored);
        } else {
            lemma_seconds_grow(audio, stored, asked);
        }
    } else {
        delay_is_within_the_window(audio);
    }
}

/// Going live leaves no delay.
pub proof fn going_live_ends_the_delay<S>(audio: AudioView<S>)
    requires
        audio.wf(),
    ensures
        audio.gone_live().delay() == 0,
{
    if audio.sample_rate != 0 && audio.channels != 0 {
        vstd::arithmetic::div_mod::lemma_div_basics(audio.sample_rate);
        vstd::arithmetic::div_mod::lemma_div_basics(audio.channels);
    }
}

/// Samples that arrive keep their place in the stream: what stays in the window is unchanged,
/// what is new stands behind it in order, and only what no longer fits is dropped.
pub proof fn arriving_samples_keep_their_place<S>(
    audio: AudioView<S>,
    samples: Seq<S>,
    bars: Seq<u64>,
)
    requires
        audio.wf(),
        plays(audio),
    ensures
        ({
            let after = audio.appended(samples, bars);
            &&& after.buffer.len() == smaller(
                (audio.buffer.len() + samples.len()) as int,
                audio.max_samples,
            )
            &&& after.live == audio.live + samples.len()
            &&& after.start == after.live - after.buffer.len()
            &&& forall|at: int|
                after.start <= at < audio.live ==> #[trigger] after.sample_at(at)
                    == audio.sample_at(at)
            &&& forall|at: int|
                after.start <= at && audio.live <= at < after.live ==> #[trigger] after.sample_at(
                    at,
                ) == samples[at - audio.live]
        }),
{
    lemma_playing_window(audio);
}

/// It makes no difference whether samples arrive together or in two parts, as long as the bars
/// that go with them are the same.
pub proof fn arrival_in_parts<S>(
    audio: AudioView<S>,
    first: Seq<S>,
    second: Seq<S>,
    bars: Seq<u64>,
)
    requires
        audio.wf(),
    ensures
        audio.appended(first, bars).appended(second, bars) == audio.appended(first + second, bars),
{
    let limit = audio.max_samples;
    let once = audio.appended(first + second, bars);
    let twice = audio.appended(first, bars).appended(second, bars);
    assert(0 <= limit) by (nonlinear_arith)
        requires
            limit == audio.sample_rate * audio.channels * WINDOW_SECONDS,
            audio.sample_rate >= 0,
            audio.channels >= 0,
    ;
    assert(audio.buffer + first + second =~= audio.buffer + (first + second));
    assert(twice.buffer =~= once.buffer);
    assert(twice =~= once);
}

/// What is heard of the next `count` samples; `None` is silence.
pub open spec fn heard<S>(audio: AudioView<S>, count: nat) -> Seq<Option<S>>
    decreases count,
{
    if count == 0 {
        Seq::empty()
    } else {
        heard(audio, (count - 1) as nat).push(
            after_playing(audio, (count - 1) as nat).next_played(),
        )
    }
}

/// The state once `count` samples have been played.
pub open spec fn after_playing<S>(audio: AudioView<S>, count: nat) -> AudioView<S>
    decreases count,
{
    if count == 0 {
        audio
    } else {
        after_playing(audio, (count - 1) as nat).advanced()
    }
}

/// Playback goes through the stream sample by sample, without a gap or a repetition, until it
/// has caught up; from then on it is silent.
pub proof fn playback_follows_the_stream<S>(audio: AudioView<S>, count: nat)
    requires
        audio.wf(),
        !audio.paused,
    ensures
        heard(audio, count).len() == count,
        forall|k: int|
            0 <= k < count ==> #[trigger] heard(audio, count)[k] == (if audio.play + k < audio.live {
                Some(audio.sample_at(audio.play + k))
            } else {
                None
            }),
        after_playing(audio, count) == (AudioView {
            play: smaller(audio.play + count, audio.live),
            ..audio
        }),
    decreases count,
{
    if count > 0 {
        playback_follows_the_stream(audio, (count - 1) as nat);
    }
}

/// Everything is heard that arrives: on an idle stream, what is played is what arrived, as far
/// as the window keeps it.
pub proof fn what_arrives_is_heard<S>(audio: AudioView<S>, samples: Seq<S>, bars: Seq<u64>)
    requires
        audio.wf(),
        plays(audio),
        !audio.paused,
        audio.live == audio.start,
        samples.len() <= audio.max_samples,
        are_bars(bars),
    ensures
        heard(audio.appended(samples, bars), samples.len()) == Seq::new(
            samples.len(),
            |i: int| Some(samples[i]),
        ),
{
    let after = audio.appended(samples, bars);
    lemma_playing_window(audio);
    playback_follows_the_stream(after, samples.len());
    arriving_samples_keep_their_place(audio, samples, bars);
    let given = Seq::new(samples.len(), |i: int| Some(samples[i]));
    assert forall|k: int| 0 <= k < samples.len() implies heard(after, samples.len())[k]
        == given[k] by {
        assert(after.sample_at(after.play + k) == samples[after.play + k - audio.live]);
    }
    assert(heard(after, samples.len()) =~= given);
}

/// While playback is paused nothing is heard and nothing moves.
pub proof fn pause_is_silent<S>(audio: AudioView<S>, count: nat)
    requires
        audio.paused,
    ensures
        heard(audio, count) == Seq::new(count, |i: int| None::<S>),
        after_playing(audio, count) == audio,
    decreases count,
{
    if count > 0 {
        pause_is_silent(audio, (count - 1) as nat);
    }
    assert(heard(audio, count) =~= Seq::new(count, |i: int| None::<S>));
}

/// Rewinding replays the stream: what is heard next are the last seconds that were asked for, in
/// which the device plays so many samples per second for each of its channels.
pub proof fn rewinding_replays_the_stream<S>(audio: AudioView<S>, seconds: int)
    requires
        audio.wf(),
        audio.sample_rate > 0,
        audio.channels > 0,
        seconds >= 0,
        seconds * audio.sample_rate * audio.channels <= audio.buffer.len(),
    ensures
        heard(
            audio.rewound(seconds),
            (seconds * audio.sample_rate * audio.channels) as nat,
        ) == Seq::new(
            (seconds * audio.sample_rate * audio.channels) as nat,
            |i: int|
                Some(
                    audio.buffer[audio.buffer.len() - seconds * audio.sample_rate * audio.channels
                        + i],
                ),
        ),
{
    lemma_samples_in_is_nonnegative(audio, seconds);
    lemma_playing_window(audio);
    let count = (seconds * audio.sample_rate * audio.channels) as nat;
    let back = audio.rewound(seconds);
    playback_follows_the_stream(back, count);
    let wanted = Seq::new(count, |i: int| Some(audio.buffer[audio.buffer.len() - count + i]));
    assert forall|k: int| 0 <= k < count implies heard(back, count)[k] == wanted[k] by {}
    assert(heard(back, count) =~= wanted);
}

/// Going back puts playback as many samples behind the stream as the device plays in that time,
/// over all its channels, or to the first sample that is kept; playback then goes on. Nothing
/// else changes.
pub proof fn rewinding_counts_every_channel<S>(audio: AudioView<S>, seconds: int)
    requires
        audio.wf(),
        seconds >= 0,
    ensures
        ({
            let after = audio.rewound(seconds);
            let back = seconds * audio.sample_rate * audio.channels;
            &&& audio.live - after.play <= back
            &&& after.play >= audio.start
            &&& after.play == audio.start || audio.live - after.play == back
            &&& !after.paused
            &&& after == (AudioView { play: after.play, paused: after.paused, ..audio })
        }),
{
    lemma_samples_in_is_nonnegative(audio, seconds);
}

/// A time of so many whole seconds is as many samples as the device plays in it, over all its
/// channels, but not as many as it plays in a second more. This holds of the delay and of what is
/// kept; a device that plays nothing has neither.
pub proof fn seconds_are_counted_by_samples<S>(audio: AudioView<S>)
    requires
        audio.wf(),
    ensures
        audio.sample_rate > 0 && audio.channels > 0 ==> {
            let behind = audio.live - audio.play;
            let stored = audio.live - audio.start;
            &&& audio.delay() * audio.sample_rate * audio.channels <= behind
            &&& behind < (audio.delay() + 1) * audio.sample_rate * audio.channels
            &&& audio.buffered() * audio.sample_rate * audio.channels <= stored
            &&& stored < (audio.buffered() + 1) * audio.sample_rate * audio.channels
        },
        audio.sample_rate == 0 || audio.channels == 0 ==> audio.delay() == 0 && audio.buffered()
            == 0,
{
    if audio.sample_rate > 0 && audio.channels > 0 {
        lemma_whole_seconds(audio.live - audio.play, audio.sample_rate, audio.channels);
        lemma_whole_seconds(audio.live - audio.start, audio.sample_rate, audio.channels);
    }
}

proof fn lemma_whole_seconds(samples: int, rate: int, channels: int)
    requires
        samples >= 0,
        rate > 0,
        channels > 0,
    ensures
        (samples / rate / channels) * rate * channels <= samples,
        samples < (samples / rate / channels + 1) * rate * channels,
{
    let frame = rate * channels;
    assert(frame > 0) by (nonlinear_arith)
        requires
            frame == rate * channels,
            rate > 0,
            channels > 0,
    ;
    vstd::arithmetic::div_mod::lemma_div_denominator(samples, rate, channels);
    vstd::arithmetic::div_mod::lemma_fundamental_div_mod(samples, frame);
    let seconds = samples / frame;
    assert(seconds * rate * channels == frame * seconds) by (nonlinear_arith)
        requires
            frame == rate * channels,
    ;
    assert((seconds + 1) * rate * channels == frame * seconds + frame) by (nonlinear_arith)
        requires
            frame == rate * channels,
    ;
}

/// The window is three minutes of what the device plays, over all its channels, and ends with the
/// sample that arrived last.
pub proof fn the_window_is_three_minutes<S>(audio: AudioView<S>)
    requires
        audio.wf(),
    ensures
        audio.max_samples == audio.sample_rate * audio.channels * 180,
        audio.sample_rate > 0 && audio.channels > 0 ==> {
            &&& audio.buffer.len() <= audio.sample_rate * audio.channels * 180
            &&& audio.start + audio.buffer.len() == audio.live
        },
        audio.start <= audio.play <= audio.live,
        audio.bars.len() == 64,
        forall|i: int| 0 <= i < 64 ==> 0 <= #[trigger] audio.bars[i] <= 100,
{
    if audio.sample_rate > 0 && audio.channels > 0 {
        lemma_playing_window(audio);
    }
}

/// Before anything is played the window is empty, playback is at its beginning, nothing is paused
/// or recorded, and all bars are down.
pub proof fn everything_begins_at_rest<S>(
    sample_rate: u32,
    channels: u16,
    recording_format: RecordingFormat,
    volume: S,
)
    ensures
        ({
            let audio = fresh_audio(sample_rate, channels, recording_format, volume);
            &&& audio.wf()
            &&& audio.buffer.len() == 0
            &&& audio.start == 0 && audio.play == 0 && audio.live == 0
            &&& audio.sample_rate == sample_rate && audio.channels == channels
            &&& audio.max_samples == sample_rate * channels * 180
            &&& audio.volume == volume && audio.recording_format == recording_format
            &&& !audio.paused && !audio.recording_requested && !audio.recording_active
            &&& !audio.cava_active
            &&& audio.recording_path.len() == 0
            &&& audio.status == "Idle"@ && audio.now_playing == "Nothing playing"@
            &&& forall|i: int| 0 <= i < 64 ==> #[trigger] audio.bars[i] == 0
        }),
{
    assert(sample_rate * channels >= 0) by (nonlinear_arith);
}

/// Playing takes the sample at the place of playback and moves one place on; while playback is
/// paused or has caught up, nothing is played and nothing moves.
pub proof fn playing_takes_one_sample<S>(audio: AudioView<S>)
    requires
        audio.wf(),
    ensures
        !audio.paused && audio.play < audio.live ==> audio.next_played() == Some(
            audio.buffer[audio.play - audio.start],
        ) && audio.advanced() == (AudioView { play: audio.play + 1, ..audio }),
        audio.paused || audio.play == audio.live ==> audio.next_played() is None
            && audio.advanced() == audio,
{
}

/// Going live puts playback behind the last sample that arrived, and it goes on there.
pub proof fn going_live_catches_up<S>(audio: AudioView<S>)
    ensures
        audio.gone_live() == (AudioView { play: audio.live, paused: false, ..audio }),
{
}

/// Samples that arrive are put behind those that are kept, as many as three minutes hold, the
/// oldest being dropped. Playback stays where it is, unless that is no longer kept or there was
/// nothing to play: then it goes on with the oldest sample that is kept. Without a monitor the
/// bars become those that go with the samples. Nothing else changes.
pub proof fn arrival_moves_the_window<S>(audio: AudioView<S>, samples: Seq<S>, bars: Seq<u64>)
    requires
        audio.wf(),
        audio.sample_rate > 0,
        audio.channels > 0,
    ensures
        ({
            let after = audio.appended(samples, bars);
            let all = audio.buffer + samples;
            let limit = audio.sample_rate * audio.channels * 180;
            &&& after.live == audio.live + samples.len()
            &&& after.start == after.live - after.buffer.len()
            &&& all.len() <= limit ==> after.buffer == all
            &&& all.len() > limit ==> after.buffer.len() == limit
            &&& forall|i: int|
                0 <= i < after.buffer.len() ==> #[trigger] after.buffer[i] == all[all.len()
                    - after.buffer.len() + i]
            &&& audio.live > audio.start && audio.play >= after.start ==> after.play == audio.play
            &&& audio.live == audio.start || audio.play < after.start ==> after.play == after.start
            &&& audio.cava_active || samples.len() == 0 ==> after.bars == audio.bars
            &&& !audio.cava_active && samples.len() > 0 ==> after.bars == bars
            &&& after == (AudioView {
                buffer: after.buffer,
                start: after.start,
                live: after.live,
                play: after.play,
                bars: after.bars,
                ..audio
            })
        }),
{
    lemma_playing_window(audio);
}

/// Samples that arrive leave playback where it is, for as long as its place is in the window.
pub proof fn arrival_leaves_playback_in_place<S>(
    audio: AudioView<S>,
    samples: Seq<S>,
    bars: Seq<u64>,
)
    requires
        audio.wf(),
        audio.live != audio.start,
        audio.appended(samples, bars).start <= audio.play,
    ensures
        audio.appended(samples, bars).play == audio.play,
        audio.appended(samples, bars).paused == audio.paused,
{
}

/// Another line of status changes nothing but the status.
pub proof fn a_status_is_only_a_status<S>(audio: AudioView<S>, status: Seq<char>)
    ensures
        audio.with_status(status) == (AudioView { status, ..audio }),
{
}

/// A device without channels or without a rate has no window to keep to, and drops nothing.
pub proof fn without_a_device_nothing_is_dropped<S>(
    audio: AudioView<S>,
    samples: Seq<S>,
    bars: Seq<u64>,
)
    requires
        audio.wf(),
        audio.sample_rate == 0 || audio.channels == 0,
    ensures
        audio.appended(samples, bars).buffer == audio.buffer + samples,
        audio.appended(samples, bars).live == audio.live + samples.len(),
        audio.live + samples.len() > 0 ==> audio.appended(samples, bars).start == 1,
        audio.live + samples.len() == 0 ==> audio.appended(samples, bars).start == 0,
{
    assert(audio.max_samples == 0) by (nonlinear_arith)
        requires
            audio.max_samples == audio.sample_rate * audio.channels * 180,
            audio.sample_rate == 0 || audio.channels == 0,
    ;
}

/// The state as a mathematical value has every field as it is.
pub proof fn the_state_is_seen_as_it_is<S>(shared: AudioShared<S>)
    ensures
        shared@.buffer == shared.buffer@,
        shared@.start == shared.start_index,
        shared@.live == shared.live_index,
        shared@.play == shared.play_index,
        shared@.max_samples == shared.max_samples,
        shared@.sample_rate == shared.sample_rate,
        shared@.channels == shared.channels,
        shared@.volume == shared.volume,
        shared@.paused == shared.paused,
        shared@.bars == shared.bars@,
        shared@.status == shared.status@,
        shared@.now_playing == shared.now_playing@,
        shared@.recording_requested == shared.recording_requested,
        shared@.recording_active == shared.recording_active,
        shared@.recording_path == shared.recording_path@,
        shared@.recording_format == shared.recording_format,
        shared@.cava_active == shared.cava_active,
{
}

} // verus!
