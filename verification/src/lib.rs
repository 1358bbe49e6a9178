//! A client for mpv's JSON IPC protocol: the decisions that start, drive and stop an
//! mpv instance, and the messages that report on it.

pub mod client;
pub mod error;
pub mod events;
pub mod models;
pub mod process;
pub mod text;

pub use client::{command_outcome, event_poll_outcome, instance_id, kill_outcome, EventPoll};
pub use error::{Error, Result};
pub use models::{
    default_ipc_timeout, default_mpv_path, EndFileReason, JsonNumber, JsonValue, MpvCommand,
    MpvCommandResponse, MpvConfig, MpvEvent,
};
