//! The library's error type.

use vstd::prelude::*;

verus! {

/// `std::io::Error`, carried through unchanged.
#[verifier::external_type_specification]
#[verifier::external_body]
pub struct ExIoError(std::io::Error);

/// The result of the library's fallible operations.
pub type Result<T> = std::result::Result<T, Error>;

/// What can go wrong while driving mpv.
#[derive(Debug)]
pub enum Error {
    /// An I/O operation failed.
    Io(std::io::Error),
    /// The mpv process could not be started, or stopped.
    MpvProcessError(String),
    /// Talking to mpv over its IPC channel failed.
    IpcError(String),
    /// mpv answered a command with an error.
    MpvCommandError(String),
}

} // verus!
