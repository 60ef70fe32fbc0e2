//! Core logic of a single-room multi-user chat service: the room registry
//! and per-connection sessions of the server, the state of the terminal
//! monitor client, and the scripted behaviour of the load-testing clients.

pub mod text;
pub mod clock;
pub mod room;
pub mod monitor;
pub mod stress;
