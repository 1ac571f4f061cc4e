//! The verified core of a terminal clock: alarm scheduling, the configuration's alarm fields,
//! the information lines (now playing, process usage, weather) and their refresh schedules,
//! the choice of the visualizer's audio device, and the geometry of the clock face.
//!
//! Everything that reads the clock, the environment, files, commands or the network, and every
//! computation on floating-point numbers, stays with the caller; the functions here take what
//! those produced as plain values.

pub mod alarm;
pub mod ansi;
pub mod clock;
pub mod config;
pub mod now_playing;
pub mod process_usage;
pub mod report;
pub mod text;
pub mod visualizer;
pub mod weather;
