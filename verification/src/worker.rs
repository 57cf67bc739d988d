//! The stream worker: what it does next, and what it makes known in the audio state.

use crate::audio::{are_bars, AudioShared, AudioView};
use crate::recording::RecordingFormat;
use vstd::prelude::*;
use vstd::string::StringExecFns;

verus! {

/// What the worker is about to do. `recording` tells whether a recorder is open.
#[derive(Clone, Copy, Debug, PartialEq, Eq, Structural)]
pub enum WorkerState {
    /// Connect to the stream.
    Connecting,
    /// See whether it has been asked to stop.
    Checking { recording: bool },
    /// Decode the next frame.
    Decoding { recording: bool },
    /// Hand the frame's samples over to playback.
    Delivering { recording: bool },
    /// Start a recorder.
    Starting,
    /// Stop the recorder, which is no longer wanted.
    Stopping,
    /// Write the frame's samples to the recorder.
    Writing,
    /// Stop the recorder, and then end.
    Closing,
    /// End.
    Done,
}

/// What came of it.
#[derive(Clone, Copy, Debug, PartialEq, Eq, Structural)]
pub enum WorkerEvent {
    Connected,
    ConnectionFailed,
    /// It has not been asked to stop.
    GoOn,
    StopRequested,
    FrameDecoded,
    FrameDamaged,
    StreamEnded,
    /// Playback has the samples; a recording was wanted, or was not, when they were decoded.
    Delivered { want_recording: bool },
    /// Playback could not be reached.
    NotDelivered,
    RecorderStarted,
    RecorderFailed,
    RecorderStopped,
    Written,
    WriteFailed,
}

/// The end: at once, or behind an open recorder.
pub open spec fn ending(recording: bool) -> WorkerState {
    if recording {
        WorkerState::Closing
    } else {
        WorkerState::Done
    }
}

/// The samples are delivered: they are written to the recorder, if there is one.
pub open spec fn delivered(recording: bool) -> WorkerState {
    if recording {
        WorkerState::Writing
    } else {
        WorkerState::Checking { recording: false }
    }
}

/// What is done next; `None` for something that cannot come of what was being done.
pub open spec fn next_state(state: WorkerState, event: WorkerEvent) -> Option<WorkerState> {
    match (state, event) {
        (WorkerState::Connecting, WorkerEvent::Connected) => Some(
            WorkerState::Checking { recording: false },
        ),
        (WorkerState::Connecting, WorkerEvent::ConnectionFailed) => Some(WorkerState::Done),
        (WorkerState::Checking { recording }, WorkerEvent::GoOn) => Some(
            WorkerState::Decoding { recording },
        ),
        (WorkerState::Checking { recording }, WorkerEvent::StopRequested) => Some(
            ending(recording),
        ),
        (WorkerState::Decoding { recording }, WorkerEvent::FrameDecoded) => Some(
            WorkerState::Delivering { recording },
        ),
        (WorkerState::Decoding { recording }, WorkerEvent::FrameDamaged) => Some(
            WorkerState::Checking { recording },
        ),
        (WorkerState::Decoding { recording }, WorkerEvent::StreamEnded) => Some(ending(recording)),
        (WorkerState::Delivering { recording }, WorkerEvent::Delivered { want_recording }) => Some(
            if want_recording && !recording {
                WorkerState::Starting
            } else if !want_recording && recording {
                WorkerState::Stopping
            } else {
                delivered(recording)
            },
        ),
        (WorkerState::Delivering { recording }, WorkerEvent::NotDelivered) => Some(
            delivered(recording),
        ),
        (WorkerState::Starting, WorkerEvent::RecorderStarted) => Some(WorkerState::Writing),
        (WorkerState::Starting, WorkerEvent::RecorderFailed) => Some(
            WorkerState::Checking { recording: false },
        ),
        (WorkerState::Stopping, WorkerEvent::RecorderStopped) => Some(
            WorkerState::Checking { recording: false },
        ),
        (WorkerState::Writing, WorkerEvent::Written) => Some(
            WorkerState::Checking { recording: true },
        ),
        (WorkerState::Writing, WorkerEvent::WriteFailed) => Some(WorkerState::Closing),
        (WorkerState::Closing, WorkerEvent::RecorderStopped) => Some(WorkerState::Done),
        _ => None,
    }
}

impl WorkerState {
    /// What is done next, once it is known what came of this.
    pub fn next(self, event: WorkerEvent) -> (next: WorkerState)
        requires
            next_state(self, event) is Some,
        ensures
            next_state(self, event) == Some(next),
    {
        match (self, event) {
            (WorkerState::Connecting, WorkerEvent::Connected) => WorkerState::Checking {
                recording: false,
            },
            (WorkerState::Checking { recording }, WorkerEvent::GoOn) => WorkerState::Decoding {
                recording,
            },
            (WorkerState::Checking { recording }, WorkerEvent::StopRequested) => if recording {
                WorkerState::Closing
            } else {
                WorkerState::Done
            },
            (WorkerState::Decoding { recording }, WorkerEvent::FrameDecoded) => {
                WorkerState::Delivering { recording }
            },
            (WorkerState::Decoding { recording }, WorkerEvent::FrameDamaged) => {
                WorkerState::Checking { recording }
            },
            (WorkerState::Decoding { recording }, WorkerEvent::StreamEnded) => if recording {
                WorkerState::Closing
            } else {
                WorkerState::Done
            },
            (WorkerState::Delivering { recording }, WorkerEvent::Delivered { want_recording }) => {
                if want_recording && !recording {
                    WorkerState::Starting
                } else if !want_recording && recording {
                    WorkerState::Stopping
                } else if recording {
                    WorkerState::Writing
                } else {
                    WorkerState::Checking { recording: false }
                }
            },
            (WorkerState::Delivering { recording }, WorkerEvent::NotDelivered) => if recording {
                WorkerState::Writing
            } else {
                WorkerState::Checking { recording: false }
            },
            (WorkerState::Starting, WorkerEvent::RecorderStarted) => WorkerState::Writing,
            (WorkerState::Starting, WorkerEvent::RecorderFailed) => WorkerState::Checking {
                recording: false,
            },
            (WorkerState::Stopping, WorkerEvent::RecorderStopped) => WorkerState::Checking {
                recording: false,
            },
            (WorkerState::Writing, WorkerEvent::Written) => WorkerState::Checking {
                recording: true,
            },
            (WorkerState::Writing, WorkerEvent::WriteFailed) => WorkerState::Closing,
            _ => WorkerState::Done,
        }
    }
}

/// A recorder is open.
pub open spec fn recorder_is_open(state: WorkerState) -> bool {
    match state {
        WorkerState::Checking { recording } => recording,
        WorkerState::Decoding { recording } => recording,
        WorkerState::Delivering { recording } => recording,
        WorkerState::Stopping | WorkerState::Writing | WorkerState::Closing => true,
        WorkerState::Connecting | WorkerState::Starting | WorkerState::Done => false,
    }
}

/// Where a run of events leads from a state; `None` if one of them cannot come there.
pub open spec fn state_after(from: WorkerState, events: Seq<WorkerEvent>) -> Option<WorkerState>
    decreases events.len(),
{
    if events.len() == 0 {
        Some(from)
    } else {
        match state_after(from, events.drop_last()) {
            Some(state) => next_state(state, events.last()),
            None => None,
        }
    }
}

/// How often an event is among others.
pub open spec fn times(events: Seq<WorkerEvent>, event: WorkerEvent) -> nat
    decreases events.len(),
{
    if events.len() == 0 {
        0
    } else {
        times(events.drop_last(), event) + if events.last() == event {
            1nat
        } else {
            0
        }
    }
}

/// There is never more than one recorder: as many have been started as have been stopped, and
/// one more while one is open. A worker that has ended has left none open.
pub proof fn recorders_are_always_stopped(events: Seq<WorkerEvent>)
    requires
        state_after(WorkerState::Connecting, events) is Some,
    ensures
        ({
            let state = state_after(WorkerState::Connecting, events)->0;
            let started = times(events, WorkerEvent::RecorderStarted);
            let stopped = times(events, WorkerEvent::RecorderStopped);
            &&& started == stopped + if recorder_is_open(state) {
                1nat
            } else {
                0
            }
            &&& state == WorkerState::Done ==> started == stopped
        }),
    decreases events.len(),
{
    if events.len() > 0 {
        recorders_are_always_stopped(events.drop_last());
    }
}

/// A worker that is asked to stop decodes no further frame: it ends, once it has closed the
/// recorder that may be open.
pub proof fn a_stop_ends_the_worker(recording: bool)
    ensures
        next_state(WorkerState::Checking { recording }, WorkerEvent::StopRequested) == Some(
            ending(recording),
        ),
        recording ==> next_state(ending(recording), WorkerEvent::RecorderStopped) == Some(
            WorkerState::Done,
        ),
        forall|event: WorkerEvent|
            recording && (#[trigger] next_state(ending(recording), event)) is Some ==> event
                == WorkerEvent::RecorderStopped,
        forall|event: WorkerEvent| (#[trigger] next_state(WorkerState::Done, event)) is None,
{
}

/// A recorder is started only where a recording is wanted and none is open, and stopped before
/// the end only where none is wanted any more.
pub proof fn recorders_follow_the_request(state: WorkerState, event: WorkerEvent)
    requires
        next_state(state, event) is Some,
    ensures
        next_state(state, event) == Some(WorkerState::Starting) ==> event
            == (WorkerEvent::Delivered { want_recording: true }) && !recorder_is_open(state),
        next_state(state, event) == Some(WorkerState::Stopping) ==> event
            == (WorkerEvent::Delivered { want_recording: false }) && recorder_is_open(state),
{
}

/// Between two frames the worker always looks whether it should stop.
pub proof fn every_frame_is_preceded_by_a_check(state: WorkerState, event: WorkerEvent)
    requires
        next_state(state, event) matches Some(next) && next is Decoding,
    ensures
        state is Checking,
        event == WorkerEvent::GoOn,
{
}

/// The audio state once it is known what came of what the worker was doing. A recorder that fails
/// is not tried again until it is asked for again; one that is closed at the end is not noted.
pub open spec fn noted<S>(
    audio: AudioView<S>,
    state: WorkerState,
    event: WorkerEvent,
    text: Seq<char>,
) -> AudioView<S> {
    match (state, event) {
        (WorkerState::Connecting, WorkerEvent::Connected) => audio.with_status("Streaming"@),
        (WorkerState::Connecting, WorkerEvent::ConnectionFailed) => audio.with_status(
            "Connection failed: "@ + text,
        ),
        (WorkerState::Starting, WorkerEvent::RecorderStarted) => AudioView {
            recording_active: true,
            recording_path: text,
            ..audio
        },
        (WorkerState::Starting, WorkerEvent::RecorderFailed) => AudioView {
            status: "Recording failed: "@ + text,
            recording_requested: false,
            ..audio
        },
        (WorkerState::Stopping, WorkerEvent::RecorderStopped) => AudioView {
            recording_active: false,
            recording_path: Seq::empty(),
            ..audio
        },
        _ => audio,
    }
}

/// A recording is shown for just as long as its recorder is open, until the worker closes one
/// at the end.
pub proof fn open_recorders_are_shown<S>(
    audio: AudioView<S>,
    state: WorkerState,
    event: WorkerEvent,
    text: Seq<char>,
)
    requires
        audio.recording_active == recorder_is_open(state),
        state != WorkerState::Closing,
        next_state(state, event) is Some,
    ensures
        noted(audio, state, event, text).recording_active == recorder_is_open(
            next_state(state, event)->0,
        ),
{
}

/// What the worker makes known leaves the window and playback in it as they are.
pub proof fn notes_leave_playback_alone<S>(
    audio: AudioView<S>,
    state: WorkerState,
    event: WorkerEvent,
    text: Seq<char>,
)
    ensures
        noted(audio, state, event, text) == (AudioView {
            status: noted(audio, state, event, text).status,
            recording_requested: noted(audio, state, event, text).recording_requested,
            recording_active: noted(audio, state, event, text).recording_active,
            recording_path: noted(audio, state, event, text).recording_path,
            ..audio
        }),
{
}

/// What the worker needs to know of the audio state before it brings a frame into the device's
/// form.
pub struct FrameSettings {
    pub sample_rate: u32,
    pub channels: u16,
    pub want_recording: bool,
    pub name: String,
    pub format: RecordingFormat,
}

impl<S: Copy> AudioShared<S> {
    /// What holds for the frame that has just been decoded.
    pub fn frame_settings(&self) -> (settings: FrameSettings)
        ensures
            settings.sample_rate == self@.sample_rate,
            settings.channels == self@.channels,
            settings.want_recording == self@.recording_requested,
            settings.name@ == self@.now_playing,
            settings.format == self@.recording_format,
    {
        FrameSettings {
            sample_rate: self.sample_rate,
            channels: self.channels,
            want_recording: self.recording_requested,
            name: self.now_playing.clone(),
            format: self.recording_format,
        }
    }

    /// Makes known what came of what the worker was doing. `text` is the error, or the path of
    /// the recording that has been started.
    pub fn note(&mut self, state: WorkerState, event: WorkerEvent, text: &str)
        requires
            old(self)@.wf(),
        ensures
            final(self)@ == noted(old(self)@, state, event, text@),
            final(self)@.wf(),
    {
        match (state, event) {
            (WorkerState::Connecting, WorkerEvent::Connected) => {
                self.status = "Streaming".to_owned();
            },
            (WorkerState::Connecting, WorkerEvent::ConnectionFailed) => {
                let mut status: String = "Connection failed: ".to_owned();
                status.append(text);
                self.status = status;
            },
            (WorkerState::Starting, WorkerEvent::RecorderStarted) => {
                self.recording_active = true;
                self.recording_path = text.to_owned();
            },
            (WorkerState::Starting, WorkerEvent::RecorderFailed) => {
                let mut status: String = "Recording failed: ".to_owned();
                status.append(text);
                self.status = status;
                self.recording_requested = false;
            },
            (WorkerState::Stopping, WorkerEvent::RecorderStopped) => {
                self.recording_active = false;
                self.recording_path = String::new();
            },
            _ => {},
        }
    }

    /// Samples of the stream have arrived.
    pub fn deliver(&mut self, samples: &[S], fallback_bars: Vec<u64>)
        requires
            old(self)@.wf(),
            old(self).live_index + samples@.len() <= u64::MAX,
            !old(self).cava_active && samples@.len() > 0 ==> are_bars(fallback_bars@),
        ensures
            final(self)@ == old(self)@.appended(samples@, fallback_bars@).with_status(
                "Streaming"@,
            ),
            final(self)@.wf(),
            final(self).status@ == "Streaming"@,
            final(self).live_index == old(self).live_index + samples@.len(),
    {
        self.append_samples(samples, fallback_bars);
        self.status = "Streaming".to_owned();
    }
}

/// What the worker does next, for whatever it was doing and whatever came of it. It connects, and
/// then goes round: it looks whether it should stop, decodes a frame, hands it over, starts or stops
/// the recorder as a recording is wanted or not, and writes to a recorder that is open. A frame that
/// is damaged is passed over. It ends where it is asked to, where the stream ends and where the
/// recorder cannot be written to, having closed the recorder that is open.
pub proof fn the_worker_goes_round(recording: bool)
    ensures
        next_state(WorkerState::Connecting, WorkerEvent::Connected) == Some(
            WorkerState::Checking { recording: false },
        ),
        next_state(WorkerState::Connecting, WorkerEvent::ConnectionFailed) == Some(
            WorkerState::Done,
        ),
        next_state(WorkerState::Checking { recording }, WorkerEvent::GoOn) == Some(
            WorkerState::Decoding { recording },
        ),
        next_state(WorkerState::Checking { recording: true }, WorkerEvent::StopRequested) == Some(
            WorkerState::Closing,
        ),
        next_state(WorkerState::Checking { recording: false }, WorkerEvent::StopRequested) == Some(
            WorkerState::Done,
        ),
        next_state(WorkerState::Decoding { recording }, WorkerEvent::FrameDecoded) == Some(
            WorkerState::Delivering { recording },
        ),
        next_state(WorkerState::Decoding { recording }, WorkerEvent::FrameDamaged) == Some(
            WorkerState::Checking { recording },
        ),
        next_state(WorkerState::Decoding { recording: true }, WorkerEvent::StreamEnded) == Some(
            WorkerState::Closing,
        ),
        next_state(WorkerState::Decoding { recording: false }, WorkerEvent::StreamEnded) == Some(
            WorkerState::Done,
        ),
        next_state(
            WorkerState::Delivering { recording: false },
            WorkerEvent::Delivered { want_recording: true },
        ) == Some(WorkerState::Starting),
        next_state(
            WorkerState::Delivering { recording: true },
            WorkerEvent::Delivered { want_recording: false },
        ) == Some(WorkerState::Stopping),
        next_state(
            WorkerState::Delivering { recording: true },
            WorkerEvent::Delivered { want_recording: true },
        ) == Some(WorkerState::Writing),
        next_state(
            WorkerState::Delivering { recording: false },
            WorkerEvent::Delivered { want_recording: false },
        ) == Some(WorkerState::Checking { recording: false }),
        next_state(WorkerState::Delivering { recording: true }, WorkerEvent::NotDelivered) == Some(
            WorkerState::Writing,
        ),
        next_state(WorkerState::Delivering { recording: false }, WorkerEvent::NotDelivered) == Some(
            WorkerState::Checking { recording: false },
        ),
        next_state(WorkerState::Starting, WorkerEvent::RecorderStarted) == Some(
            WorkerState::Writing,
        ),
        next_state(WorkerState::Starting, WorkerEvent::RecorderFailed) == Some(
            WorkerState::Checking { recording: false },
        ),
        next_state(WorkerState::Stopping, WorkerEvent::RecorderStopped) == Some(
            WorkerState::Checking { recording: false },
        ),
        next_state(WorkerState::Writing, WorkerEvent::Written) == Some(
            WorkerState::Checking { recording: true },
        ),
        next_state(WorkerState::Writing, WorkerEvent::WriteFailed) == Some(WorkerState::Closing),
        next_state(WorkerState::Closing, WorkerEvent::RecorderStopped) == Some(WorkerState::Done),
{
}

/// What can come of what the worker is doing, and nothing else can.
pub proof fn everything_has_its_outcomes(state: WorkerState, event: WorkerEvent)
    ensures
        next_state(state, event) is Some <==> {
            ||| state is Connecting && (event is Connected || event is ConnectionFailed)
            ||| state is Checking && (event is GoOn || event is StopRequested)
            ||| state is Decoding && (event is FrameDecoded || event is FrameDamaged
                || event is StreamEnded)
            ||| state is Delivering && (event is Delivered || event is NotDelivered)
            ||| state is Starting && (event is RecorderStarted || event is RecorderFailed)
            ||| state is Stopping && event is RecorderStopped
            ||| state is Writing && (event is Written || event is WriteFailed)
            ||| state is Closing && event is RecorderStopped
        },
{
}

/// The worker makes known that it streams or why it cannot, where a recording goes once its recorder
/// has been started, why none could be started, which is then no longer asked for, and that there is
/// none any more once its recorder has been stopped; and nothing else.
pub proof fn the_worker_makes_known_what_it_does<S>(
    audio: AudioView<S>,
    state: WorkerState,
    event: WorkerEvent,
    text: Seq<char>,
)
    ensures
        noted(audio, WorkerState::Connecting, WorkerEvent::Connected, text) == (AudioView {
            status: "Streaming"@,
            ..audio
        }),
        noted(audio, WorkerState::Connecting, WorkerEvent::ConnectionFailed, text) == (AudioView {
            status: "Connection failed: "@ + text,
            ..audio
        }),
        noted(audio, WorkerState::Starting, WorkerEvent::RecorderStarted, text) == (AudioView {
            recording_active: true,
            recording_path: text,
            ..audio
        }),
        noted(audio, WorkerState::Starting, WorkerEvent::RecorderFailed, text) == (AudioView {
            status: "Recording failed: "@ + text,
            recording_requested: false,
            ..audio
        }),
        noted(audio, WorkerState::Stopping, WorkerEvent::RecorderStopped, text) == (AudioView {
            recording_active: false,
            recording_path: Seq::empty(),
            ..audio
        }),
        !(state is Connecting) && !(state is Starting) && !(state is Stopping) ==> noted(
            audio,
            state,
            event,
            text,
        ) == audio,
{
}

} // verus!
