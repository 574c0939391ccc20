//! What the server decides for the sessions of log sources and for the
//! event streams of viewers.

pub mod inbound;
pub mod outbound;
