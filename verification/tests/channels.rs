use srtui::channels::{channel, fetch_channels};
use srtui::config::{config_path, load_persisted_config, themes_path, PersistedConfig};
use srtui::recording::RecordingFormat;
use std::collections::HashSet;

#[test]
fn there_are_channels_to_choose_from() {
    let channels = fetch_channels().unwrap();
    assert_eq!(channels.len(), 36);
    assert_eq!(channels[0].name, "Ekot sänder direkt");
    assert_eq!(channels[0].url, "https://live1.sr.se/ekotdirekt-mp3-96");
    assert_eq!(channels[31].name, "P4 Östergötland");
    assert_eq!(channels[31].url, "https://live1.sr.se/p4ostg-mp3-96");
    assert_eq!(channels[35].name, "Sveriges Radio Finska");
    assert_eq!(channels[35].url, "https://live1.sr.se/finska-mp3-96");
}

#[test]
fn channels_are_distinct_mp3_streams() {
    let channels = fetch_channels().unwrap();
    let names: HashSet<&str> = channels.iter().map(|c| c.name.as_str()).collect();
    let urls: HashSet<&str> = channels.iter().map(|c| c.url.as_str()).collect();
    assert_eq!((names.len(), urls.len()), (36, 36));
    for c in &channels {
        assert!(c.url.starts_with("https://live1.sr.se/") && c.url.ends_with("-mp3-96"));
    }
}

#[test]
fn a_channel_has_a_name_and_an_address() {
    let c = channel("P1", "https://live1.sr.se/p1-mp3-96").clone();
    assert_eq!((c.name.as_str(), c.url.as_str()), ("P1", "https://live1.sr.se/p1-mp3-96"));
}

#[test]
fn choices_have_defaults() {
    let config = load_persisted_config(None);
    assert_eq!(config.theme_name, "tokyo_night");
    assert_eq!(config.recording_format, RecordingFormat::Mp3);
    let other = PersistedConfig {
        theme_name: "dracula".to_string(),
        recording_format: RecordingFormat::Ogg,
    };
    let config = load_persisted_config(Some(other.clone()));
    assert_eq!(config.theme_name, "dracula");
    assert_eq!(config.recording_format, RecordingFormat::Ogg);
}

#[test]
fn files_have_their_places() {
    assert_eq!(config_path(), ".config/srtui/config.toml");
    assert_eq!(themes_path(), ".config/alacritty");
}
