//! Verified core of a small client/server game-networking layer: client
//! identifiers and message envelopes, the length-prefixed wire framing, the
//! bookkeeping of the server and the client, the decisions of their stream
//! threads, and the high-level identify/ping protocol.

pub mod client;
pub mod frame;
pub mod hlnetwork;
pub mod link;
pub mod network;
mod seqs;
pub mod server;
pub mod streams;
