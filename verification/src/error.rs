//! The library's error type.
use vstd::prelude::*;

verus! {

/// Declares `std::io::Error` so that the error type can carry it.
#[verifier::external_type_specification]
#[verifier::external_body]
pub struct ExIoError(std::io::Error);

/// Errors of the player, by the subsystem that reports them.
#[derive(Debug)]
pub enum PlayerError {
    Io(std::io::Error),
    AudioDecode(String),
    VideoDemux(String),
    VideoDecode(String),
    Render(String),
    Unsupported(String),
    AudioOutput(String),
}

/// Result of the player's fallible operations.
pub type Result<T> = std::result::Result<T, PlayerError>;

} // verus!
