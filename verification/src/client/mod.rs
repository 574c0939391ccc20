//! The tailing side of the relay: what to tail, how lines become records,
//! and how a session with the relay server is run.

pub mod configuration;
pub mod file_tailer;
pub mod process;
