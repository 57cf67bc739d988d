use srtui::audio::{AudioShared, BAR_COUNT, WINDOW_SECONDS};
use srtui::channels::channel;
use srtui::engine::AudioEngine;
use srtui::recording::RecordingFormat;
use srtui::worker::{WorkerEvent, WorkerState};

fn shared(rate: u32, channels: u16) -> AudioShared<f32> {
    AudioShared::new(rate, channels, RecordingFormat::Mp3, 0.8)
}

fn engine(rate: u32, channels: u16) -> AudioEngine<f32> {
    AudioEngine::new(rate, channels, RecordingFormat::Mp3, 0.8)
}

fn bars() -> Vec<u64> {
    vec![7; BAR_COUNT]
}

fn run(from: u32, to: u32) -> Vec<f32> {
    (from..to).map(|n| n as f32).collect()
}

#[test]
fn a_new_state_is_idle() {
    let state = shared(44100, 2);
    assert_eq!(state.max_samples, 44100 * 2 * 180);
    assert_eq!(state.bars, vec![0; 64]);
    assert_eq!(state.status, "Idle");
    assert_eq!(state.now_playing, "Nothing playing");
    assert_eq!((state.start_index, state.live_index, state.play_index), (0, 0, 0));
    assert_eq!(state.volume, 0.8);
    assert!(!state.paused && !state.recording_requested && !state.recording_active);
    assert!(!state.cava_active && state.recording_path.is_empty() && state.buffer.is_empty());
}

#[test]
fn what_arrives_is_played() {
    let mut state = shared(10, 1);
    state.append_samples(&run(0, 5), bars());
    let heard: Vec<Option<f32>> = (0..7).map(|_| state.next_sample()).collect();
    assert_eq!(
        heard,
        [Some(0.0), Some(1.0), Some(2.0), Some(3.0), Some(4.0), None, None]
    );
    assert_eq!(state.play_index, 5);
    assert_eq!(state.bars, bars());
}

#[test]
fn the_window_moves_along() {
    let mut state = shared(1, 1);
    state.append_samples(&run(0, 100), bars());
    state.append_samples(&run(100, 200), bars());
    assert_eq!(state.max_samples, 180);
    assert_eq!((state.start_index, state.live_index, state.play_index), (20, 200, 20));
    assert_eq!(state.buffer.len(), 180);
    assert_eq!(state.next_sample(), Some(20.0));
    state.append_samples(&run(200, 600), bars());
    assert_eq!((state.start_index, state.live_index, state.play_index), (420, 600, 420));
    assert_eq!(state.next_sample(), Some(420.0));
    assert_eq!(state.buffered_seconds(), WINDOW_SECONDS);
}

#[test]
fn samples_can_arrive_in_parts() {
    let mut together = shared(1, 2);
    let mut parts = shared(1, 2);
    together.append_samples(&run(0, 500), bars());
    parts.append_samples(&run(0, 123), bars());
    parts.append_samples(&run(123, 500), bars());
    assert_eq!(together.buffer, parts.buffer);
    assert_eq!(together.play_index, parts.play_index);
    assert_eq!(together.start_index, parts.start_index);
}

#[test]
fn the_monitor_keeps_its_bars() {
    let mut state = shared(10, 1);
    state.monitor_started();
    state.append_samples(&run(0, 5), bars());
    assert_eq!(state.bars, vec![0; 64]);
    state.monitor_stopped();
    state.append_samples(&[], bars());
    assert_eq!(state.bars, vec![0; 64]);
    state.append_samples(&run(5, 6), bars());
    assert_eq!(state.bars, bars());
}

#[test]
fn rewinding_sets_the_delay() {
    let mut state = shared(10, 2);
    state.append_samples(&run(0, 20 * 100), bars());
    state.go_live();
    assert_eq!(state.delay_seconds(), 0);
    state.paused = true;
    state.rewind_seconds(30);
    assert_eq!(state.delay_seconds(), 30);
    assert!(!state.paused);
    assert_eq!(state.next_sample(), Some((20 * 70) as f32));
    state.rewind_seconds(1000);
    assert_eq!(state.delay_seconds(), state.buffered_seconds());
    assert_eq!(state.delay_seconds(), 100);
    assert_eq!(state.play_index, state.start_index);
}

#[test]
fn pausing_is_silent_and_loses_nothing() {
    let mut player = engine(10, 1);
    player.shared.append_samples(&run(0, 5), bars());
    assert_eq!(player.shared.next_sample(), Some(0.0));
    player.toggle_pause();
    assert_eq!(player.shared.status, "Paused");
    assert_eq!(player.shared.next_sample(), None);
    player.toggle_pause();
    assert_eq!(player.shared.status, "Playing");
    assert_eq!(player.shared.next_sample(), Some(1.0));
}

#[test]
fn a_device_without_channels_has_no_seconds() {
    let mut state = shared(10, 0);
    assert_eq!(state.max_samples, 0);
    state.append_samples(&run(0, 3), bars());
    assert_eq!((state.start_index, state.live_index, state.play_index), (1, 3, 1));
    assert_eq!(state.buffer.len(), 3);
    assert_eq!(state.buffered_seconds(), 0);
    assert_eq!(state.delay_seconds(), 0);
    assert_eq!(state.next_sample(), Some(0.0));
}

#[test]
fn tuning_in_starts_afresh() {
    let mut player = engine(10, 1);
    player.shared.append_samples(&run(0, 50), bars());
    player.toggle_pause();
    player.shared.note(WorkerState::Starting, WorkerEvent::RecorderStarted, "/music/x.mp3");
    player.play(&channel("P2", "https://live1.sr.se/p2-mp3-96"));
    assert_eq!(player.shared.status, "Connecting to P2");
    assert_eq!(player.shared.now_playing, "P2");
    assert!(player.shared.buffer.is_empty());
    assert!(!player.shared.paused && !player.shared.recording_active);
    assert_eq!(player.shared.recording_path, "");
    assert_eq!(player.shared.next_sample(), None);
    assert_eq!(player.shared.buffered_seconds(), 0);
}

#[test]
fn the_engine_reports_what_it_did() {
    let mut player = engine(10, 1);
    player.shared.append_samples(&run(0, 2000), bars());
    player.rewind_minutes(2);
    assert_eq!(player.shared.status, "Rewound 2 minute(s)");
    assert_eq!(player.shared.delay_seconds(), 120);
    player.go_live();
    assert_eq!(player.shared.status, "Live");
    assert_eq!(player.shared.delay_seconds(), 0);
    player.set_volume(1.5);
    assert_eq!(player.shared.volume, 1.5);
    assert_eq!(player.cycle_recording_format(), RecordingFormat::Flac);
    assert_eq!(player.shared.status, "Recording format: flac");
}

#[test]
fn a_recording_can_be_asked_for_and_ended() {
    let mut player = engine(10, 1);
    player.toggle_recording();
    assert!(player.shared.recording_requested && !player.shared.recording_active);
    player.shared.note(WorkerState::Starting, WorkerEvent::RecorderStarted, "/music/p1.ogg");
    assert!(player.shared.recording_active);
    assert_eq!(player.shared.recording_path, "/music/p1.ogg");
    player.toggle_recording();
    assert!(!player.shared.recording_requested && !player.shared.recording_active);
    assert_eq!(player.shared.recording_path, "");
}

#[test]
fn four_format_changes_come_round() {
    let mut player = engine(10, 1);
    for _ in 0..4 {
        player.cycle_recording_format();
    }
    assert_eq!(player.shared.recording_format, RecordingFormat::Mp3);
}

#[test]
fn a_snapshot_shows_the_state() {
    let mut player = engine(10, 1);
    player.shared.append_samples(&run(0, 2000), bars());
    player.play(&channel("P1", "u"));
    player.shared.append_samples(&run(0, 1000), bars());
    player.rewind_minutes(1);
    player.shared.monitor_started();
    let snapshot = player.snapshot();
    assert_eq!(snapshot.volume, 0.8);
    assert!(!snapshot.paused);
    assert_eq!(snapshot.bars, bars());
    assert_eq!(snapshot.status, "Rewound 1 minute(s)");
    assert_eq!(snapshot.now_playing, "P1");
    assert_eq!(snapshot.buffered_seconds, 100);
    assert_eq!(snapshot.delay_seconds, 60);
    assert!(!snapshot.recording_requested && !snapshot.recording_active);
    assert_eq!(snapshot.recording_path, "");
    assert_eq!(snapshot.recording_format, RecordingFormat::Mp3);
    assert!(snapshot.cava_active);
}

#[test]
fn rewinding_replays_the_last_seconds() {
    let mut state = shared(5, 2);
    state.append_samples(&run(0, 1000), bars());
    state.go_live();
    state.rewind_seconds(3);
    let heard: Vec<Option<f32>> = (0..30).map(|_| state.next_sample()).collect();
    assert_eq!(heard, run(970, 1000).into_iter().map(Some).collect::<Vec<_>>());
    assert_eq!(state.next_sample(), None);
}

#[test]
fn arrival_leaves_playback_in_place() {
    let mut state = shared(1, 1);
    state.append_samples(&run(0, 50), bars());
    for _ in 0..20 {
        state.next_sample();
    }
    state.paused = true;
    state.append_samples(&run(50, 200), bars());
    assert_eq!((state.start_index, state.play_index), (20, 20));
    assert!(state.paused);
    state.append_samples(&run(200, 201), bars());
    assert_eq!((state.start_index, state.play_index), (21, 21));
}
