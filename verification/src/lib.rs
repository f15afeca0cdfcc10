//! Decision logic of a group chat server and its clients.
//!
//! - `protocol`: the messages exchanged between client and server.
//! - `framing`: how a message's encoding is framed on the wire.
//! - `names`, `registry`: sets of names and maps keyed by names.
//! - `state`: the registry of named clients and groups.
//! - `replies`: the fixed texts and reply shapes of the server.
//! - `text`: whitespace, trimming and joining of texts.
//! - `model`: what each request does, stated over mathematical values.
//! - `handle`: the server's handling of requests, verified against `model`.
//! - `input`: the client's reading of a typed line.
//! - `laws`: properties that hold across requests.

pub mod framing;
pub mod handle;
pub mod input;
pub mod laws;
pub mod model;
pub mod names;
pub mod protocol;
pub mod registry;
pub mod replies;
pub mod state;
pub mod text;
