//! Verified core of a native media player: container/bitstream framing,
//! A/V synchronisation, audio clock and buffering, subtitles, localisation
//! and stream-source planning.

pub mod audio;
pub mod cli;
pub mod error;
pub mod i18n;
pub mod player;
pub mod stream;
pub mod subtitle;
pub mod sync;
pub mod text;
pub mod ui;
pub mod video;

pub use error::{PlayerError, Result};
