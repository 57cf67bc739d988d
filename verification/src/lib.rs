//! The core of a terminal radio player: a time-shift buffer over a live stream,
//! colour themes, recording, the visualizer and the key bindings, all verified.

pub mod audio;
pub mod cava;
pub mod channels;
pub mod config;
pub mod control;
pub mod engine;
pub mod error;
pub mod panels;
pub mod panes;
pub mod recording;
pub mod resample;
pub mod text;
pub mod theme;
pub mod visualizer;
pub mod worker;
