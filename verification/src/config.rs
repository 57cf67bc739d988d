//! What is remembered from one run to the next.

use crate::recording::RecordingFormat;
use vstd::prelude::*;

verus! {

/// The choices that are kept on disk.
#[derive(Debug)]
pub struct PersistedConfig {
    pub theme_name: String,
    pub recording_format: RecordingFormat,
}

impl PersistedConfig {
    /// The theme's name and the format.
    pub open spec fn pair(self) -> (Seq<char>, RecordingFormat) {
        (self.theme_name@, self.recording_format)
    }
}

impl Clone for PersistedConfig {
    fn clone(&self) -> (copy: Self)
        ensures
            copy.pair() == self.pair(),
    {
        PersistedConfig {
            theme_name: self.theme_name.clone(),
            recording_format: self.recording_format,
        }
    }
}

/// What holds where nothing is remembered.
pub open spec fn default_config() -> (Seq<char>, RecordingFormat) {
    ("tokyo_night"@, RecordingFormat::Mp3)
}

impl Default for PersistedConfig {
    fn default() -> (config: Self)
        ensures
            config.pair() == default_config(),
            config.theme_name@ == "tokyo_night"@,
            config.recording_format == RecordingFormat::Mp3,
    {
        PersistedConfig {
            theme_name: "tokyo_night".to_owned(),
            recording_format: RecordingFormat::Mp3,
        }
    }
}

/// The remembered choices, or the default where they are missing or cannot be understood.
pub fn load_persisted_config(found: Option<PersistedConfig>) -> (config: PersistedConfig)
    ensures
        config.pair() == (match found {
            Some(found) => found.pair(),
            None => default_config(),
        }),
        found is Some ==> config.theme_name@ == found->0.theme_name@ && config.recording_format
            == found->0.recording_format,
        found is None ==> config.theme_name@ == "tokyo_night"@ && config.recording_format
            == RecordingFormat::Mp3,
{
    match found {
        Some(found) => found,
        None => PersistedConfig::default(),
    }
}

/// Where the choices are kept, below the home directory.
pub fn config_path() -> (path: &'static str)
    ensures
        path@ == ".config/srtui/config.toml"@,
{
    ".config/srtui/config.toml"
}

/// Where themes are looked for, below the home directory.
pub fn themes_path() -> (path: &'static str)
    ensures
        path@ == ".config/alacritty"@,
{
    ".config/alacritty"
}

/// What was remembered is what holds; where nothing was, the theme is `tokyo_night` and the format MP3.
pub proof fn defaults_are_what_they_are()
    ensures
        default_config().0 == "tokyo_night"@,
        default_config().1 == RecordingFormat::Mp3,
{
}

/// The choices as a mathematical value are the theme's name and the format.
pub proof fn choices_are_seen_as_they_are(config: PersistedConfig)
    ensures
        config.pair().0 == config.theme_name@,
        config.pair().1 == config.recording_format,
{
}

} // verus!
