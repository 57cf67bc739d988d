use srtui::audio::AudioShared;
use srtui::cava::{monitor_config, monitor_config_name, monitor_levels};
use srtui::recording::RecordingFormat;

#[test]
fn the_monitor_is_configured() {
    let wanted = "\
[general]
bars = 32
bars = 64
framerate = 60
sensitivity = 100

[output]
method = raw
raw_target = /dev/stdout
data_format = ascii
ascii_max_range = 100
";
    assert_eq!(monitor_config(), wanted);
    assert_eq!(monitor_config_name(4711), "srtui-cava-4711.conf");
}

#[test]
fn levels_are_numbers_between_semicolons() {
    assert_eq!(monitor_levels(" 0;12;100;101;99999;\n"), [0, 12, 100, 100, 100]);
    assert_eq!(monitor_levels("a;-1;;+5; 6;7"), [5, 7]);
    assert_eq!(monitor_levels("18446744073709551616;3"), [3]);
    assert!(monitor_levels("\n").is_empty());
}

#[test]
fn bars_follow_the_monitor_as_computed_in_floating_point() {
    for height in 0..=100u64 {
        for level in 0..=100u64 {
            let mut state: AudioShared<u8> = AudioShared::new(10, 1, RecordingFormat::Wav, 0);
            state.bars = vec![height; 64];
            state.follow_monitor(&format!("{level};"));
            let near = |a: u64, b: u64| (a as f64 * 0.68 + b as f64 * 0.32).round() as u64;
            assert_eq!(state.bars[0], near(height, level));
            assert_eq!(state.bars[1], near(height, 0));
        }
    }
}

#[test]
fn a_line_without_levels_changes_nothing() {
    let mut state: AudioShared<u8> = AudioShared::new(10, 1, RecordingFormat::Wav, 0);
    state.bars = vec![50; 64];
    state.follow_monitor("no levels\n");
    assert_eq!(state.bars, vec![50; 64]);
}

#[test]
fn bars_never_go_past_their_level() {
    let mut state: AudioShared<u8> = AudioShared::new(10, 1, RecordingFormat::Wav, 0);
    for _ in 0..50 {
        let before = state.bars[0];
        state.follow_monitor("80");
        assert!(before <= state.bars[0] && state.bars[0] <= 80);
    }
    let settled = state.bars[0];
    state.follow_monitor(&settled.to_string());
    assert_eq!(state.bars[0], settled);
}
