//! Verified core of a local-network broadcast chat.
//!
//! Participants on one subnet exchange presence announcements and text
//! messages over UDP broadcast; every payload is encrypted with a key derived
//! from the room name.  This crate holds the protocol logic: the wire codec,
//! the presence registry with timeout eviction, the shared room state, and
//! the terminal-side application state.  Socket, clock and terminal handling
//! live outside, and feed this crate plain values.

pub mod app;
pub mod chat;
pub mod codec;
pub mod crypto;
pub mod ops;
pub mod presence;
pub mod state;
pub mod textutil;
pub mod users;
