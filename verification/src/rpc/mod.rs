//! RPC bridge for [`PathFs`](crate::path_fs::PathFs) providers in another
//! process.
//!
//! The runtime that serves FUSE and the process that defines the semantics of a
//! filesystem are not the same, so that a provider cannot be a set of callbacks.
//! Instead the runtime runs a [`VirtualFs`](crate::vfs::VirtualFs) over an
//! [`RpcPathFs`](client::RpcPathFs), which turns each operation into a request
//! sent over a transport to the controlling process. That process runs the real
//! provider and replies. One operation is in flight per mount.
//!
//! - `protocol`: limits and version of the protocol
//! - `messages`: requests, responses, and the wire forms of what they carry
//! - `framing`: the hello handshake and length-framed messages
//! - `limits`: request-size limits that both ends share
//! - `client`: the runtime's proxy for a remote provider
//! - `transport`: the requester's end of a connection
//! - `dispatch`: the answer to one request
//! - `serve`: the provider's end of a connection
//! - `bridge`: what both ends promise together

pub mod bridge;
pub mod client;
pub mod dispatch;
pub mod framing;
pub mod limits;
pub mod messages;
pub mod protocol;
pub mod serve;
pub mod transport;
