//! Host-telemetry exchange: a server measures its host and sends what it
//! measured, one snapshot after another, to every client that connects; a
//! client shows the last snapshot that reached it.
//!
//! This library is the part of both that decides. It holds the snapshot
//! record ([`packet`]), its encoding as one JSON document ([`codec`]), the
//! server's side of a connection ([`session`]) and the client's
//! ([`client`]), the client's reading rate ([`cadence`]) and the record of
//! its last session ([`last_session`]), whose sizes are numbers by the
//! grammar of [`size`]. It opens no socket and no file:
//! the state machines take events and answer with actions, and the program
//! around them does what the actions say.
//!
//! Everything is verified but the calls into `serde_json` and `chrono`,
//! which stand in [`json`] and [`clock`] with a statement of what each
//! does, and `String::push` in [`text`].

pub mod cadence;
pub mod client;
pub mod clock;
pub mod codec;
pub mod json;
pub mod last_session;
pub mod packet;
pub mod session;
pub mod size;
pub mod text;
