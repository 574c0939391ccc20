//! The relay server: the registry of broadcast channels and the decisions
//! taken for inbound sessions and outbound event streams.

pub mod broadcaster;
pub mod controller;
