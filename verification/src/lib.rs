//! The decisions of a small file-transfer agent, without its I/O.
//!
//! The agent holds one connection to a peer and obeys the text commands
//! that arrive on it: store a file, send a file back, report the host's
//! status, or stop. Every transfer is followed by a digest of the file's
//! content.
//!
//! Nothing in this crate touches the connection or the files that are
//! transferred. A driver performs each [`protocol::Request`] and reports
//! what happened as a [`protocol::Event`]; [`session::Session::step`]
//! decides what is sent to the peer and what is done next.
//!
//! * [`command`] reads a message as a command.
//! * [`digest`] computes the digest of a file, chunk by chunk.
//! * [`reply`] composes what is said to the peer.
//! * [`status`] makes a record of the host's status and composes its
//!   report.
//! * [`protocol`] holds the events, requests and reactions.
//! * [`session`] is the state machine, and [`model`] says where each event
//!   takes it.
//! * [`world`] models a driver over files and a peer given as plain values,
//!   and [`laws`] states what holds of every session that is driven so.

pub mod command;
pub mod digest;
pub mod laws;
pub mod model;
pub mod protocol;
pub mod reply;
pub mod session;
pub mod status;
pub mod text;
pub mod world;

use vstd::prelude::*;

verus! {

/// The number of bytes moved by one read of the connection or of a file.
pub const CHUNK_SIZE: usize = 1024;

} // verus!
