use srtui::audio::AudioShared;
use srtui::recording::RecordingFormat;
use srtui::worker::{WorkerEvent, WorkerState};

fn after(events: &[WorkerEvent]) -> WorkerState {
    let mut state = WorkerState::Connecting;
    for event in events {
        state = state.next(*event);
    }
    state
}

fn state() -> AudioShared<u32> {
    AudioShared::new(10, 2, RecordingFormat::Ogg, 100)
}

const WANTED: WorkerEvent = WorkerEvent::Delivered { want_recording: true };
const UNWANTED: WorkerEvent = WorkerEvent::Delivered { want_recording: false };

#[test]
fn a_failed_connection_ends_the_worker() {
    assert_eq!(after(&[WorkerEvent::ConnectionFailed]), WorkerState::Done);
}

#[test]
fn frames_are_decoded_until_a_stop() {
    let mut events = vec![WorkerEvent::Connected];
    for _ in 0..3 {
        events.extend([WorkerEvent::GoOn, WorkerEvent::FrameDecoded, UNWANTED]);
    }
    assert_eq!(after(&events), WorkerState::Checking { recording: false });
    events.extend([WorkerEvent::GoOn, WorkerEvent::FrameDamaged]);
    assert_eq!(after(&events), WorkerState::Checking { recording: false });
    events.push(WorkerEvent::StopRequested);
    assert_eq!(after(&events), WorkerState::Done);
}

#[test]
fn a_recorder_is_started_once_and_stopped() {
    let mut events = vec![WorkerEvent::Connected, WorkerEvent::GoOn, WorkerEvent::FrameDecoded];
    events.push(WANTED);
    assert_eq!(after(&events), WorkerState::Starting);
    events.push(WorkerEvent::RecorderStarted);
    assert_eq!(after(&events), WorkerState::Writing);
    events.extend([WorkerEvent::Written, WorkerEvent::GoOn, WorkerEvent::FrameDecoded, WANTED]);
    assert_eq!(after(&events), WorkerState::Writing);
    events.extend([WorkerEvent::Written, WorkerEvent::GoOn, WorkerEvent::FrameDecoded, UNWANTED]);
    assert_eq!(after(&events), WorkerState::Stopping);
    events.push(WorkerEvent::RecorderStopped);
    assert_eq!(after(&events), WorkerState::Checking { recording: false });
}

#[test]
fn an_open_recorder_is_closed_at_the_end() {
    let open = [
        WorkerEvent::Connected,
        WorkerEvent::GoOn,
        WorkerEvent::FrameDecoded,
        WANTED,
        WorkerEvent::RecorderStarted,
    ];
    let ends: [&[WorkerEvent]; 3] = [
        &[WorkerEvent::WriteFailed],
        &[WorkerEvent::Written, WorkerEvent::StopRequested],
        &[WorkerEvent::Written, WorkerEvent::GoOn, WorkerEvent::StreamEnded],
    ];
    for end in ends {
        let events = [&open, end].concat();
        assert_eq!(after(&events), WorkerState::Closing);
        assert_eq!(after(&events).next(WorkerEvent::RecorderStopped), WorkerState::Done);
    }
}

#[test]
fn a_recorder_that_fails_is_done_without() {
    let events = [
        WorkerEvent::Connected,
        WorkerEvent::GoOn,
        WorkerEvent::FrameDecoded,
        WANTED,
        WorkerEvent::RecorderFailed,
    ];
    assert_eq!(after(&events), WorkerState::Checking { recording: false });
}

#[test]
fn samples_are_written_even_if_playback_is_gone() {
    let recording = WorkerState::Delivering { recording: true };
    assert_eq!(recording.next(WorkerEvent::NotDelivered), WorkerState::Writing);
    let idle = WorkerState::Delivering { recording: false };
    assert_eq!(
        idle.next(WorkerEvent::NotDelivered),
        WorkerState::Checking { recording: false }
    );
    assert_eq!(
        WorkerState::Decoding { recording: false }.next(WorkerEvent::StreamEnded),
        WorkerState::Done
    );
}

#[test]
fn the_worker_makes_itself_known() {
    let mut shared = state();
    shared.note(WorkerState::Connecting, WorkerEvent::ConnectionFailed, "no route");
    assert_eq!(shared.status, "Connection failed: no route");
    shared.note(WorkerState::Connecting, WorkerEvent::Connected, "");
    assert_eq!(shared.status, "Streaming");
    shared.status = "Live".to_string();
    shared.deliver(&[1, 2, 3, 4], vec![1; 64]);
    assert_eq!(shared.status, "Streaming");
    assert_eq!(shared.live_index, 4);
    assert_eq!(shared.bars, vec![1; 64]);
    shared.recording_requested = true;
    shared.note(WorkerState::Starting, WorkerEvent::RecorderStarted, "/music/a.ogg");
    assert!(shared.recording_active);
    assert_eq!(shared.recording_path, "/music/a.ogg");
    shared.note(WorkerState::Stopping, WorkerEvent::RecorderStopped, "");
    assert!(!shared.recording_active && shared.recording_requested);
    assert_eq!(shared.recording_path, "");
    shared.note(WorkerState::Starting, WorkerEvent::RecorderFailed, "no ffmpeg");
    assert_eq!(shared.status, "Recording failed: no ffmpeg");
    assert!(!shared.recording_requested);
}

#[test]
fn a_recorder_that_is_closed_at_the_end_is_not_noted() {
    let mut shared = state();
    shared.note(WorkerState::Starting, WorkerEvent::RecorderStarted, "/music/a.ogg");
    shared.note(WorkerState::Closing, WorkerEvent::RecorderStopped, "");
    assert!(shared.recording_active);
    assert_eq!(shared.recording_path, "/music/a.ogg");
}

#[test]
fn a_recording_is_shown_while_its_recorder_is_open() {
    let mut shared = state();
    shared.append_samples(&[1, 2, 3, 4], vec![1; 64]);
    let steps = [
        (WorkerEvent::Connected, false),
        (WorkerEvent::GoOn, false),
        (WorkerEvent::FrameDecoded, false),
        (WANTED, false),
        (WorkerEvent::RecorderStarted, true),
        (WorkerEvent::Written, true),
        (WorkerEvent::GoOn, true),
        (WorkerEvent::FrameDecoded, true),
        (UNWANTED, true),
        (WorkerEvent::RecorderStopped, false),
        (WorkerEvent::StopRequested, false),
    ];
    let mut at = WorkerState::Connecting;
    for (event, shown) in steps {
        shared.note(at, event, "/music/a.ogg");
        at = at.next(event);
        assert_eq!(shared.recording_active, shown, "{event:?}");
        assert_eq!((shared.start_index, shared.play_index, shared.live_index), (0, 0, 4));
    }
    assert_eq!(at, WorkerState::Done);
}

#[test]
fn a_frame_is_brought_into_the_device_form() {
    let mut shared = state();
    shared.recording_requested = true;
    shared.now_playing = "P3".to_string();
    let settings = shared.frame_settings();
    assert_eq!((settings.sample_rate, settings.channels), (10, 2));
    assert!(settings.want_recording);
    assert_eq!(settings.name, "P3");
    assert_eq!(settings.format, RecordingFormat::Ogg);
}
