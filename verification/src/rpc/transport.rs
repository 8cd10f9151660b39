//! The requester's side of a serialized byte stream.
//!
//! Calls take turns on the wire: each one writes a framed request and waits for
//! its reply. This is the state that a connection carries from call to call, and
//! the decisions that depend on it; the bytes themselves are moved by whoever
//! owns the stream. The request id is stamped here and echoed by the peer.

use super::framing::{
    after_frame, frame, frame_view, frames_round_trip, parsed_frame, parsed_hello, read_hello,
    write_frame,
};
use super::protocol::{MAX_FRAME_LEN, PROTOCOL_VERSION};
use crate::error::{DataFault, FsError};
use crate::time::Span;
use crate::vfs::bytes_of;
use vstd::prelude::*;

verus! {

/// Default time to wait for a single RPC response (and the hello handshake) when
/// a mount does not set its own timeout. Long enough for a normal provider,
/// short enough that a wedged one fails the mount instead of pinning it for
/// minutes.
pub fn default_call_timeout() -> (r: Span)
    ensures
        r == (Span { secs: 30, nanos: 0 }),
{
    Span::from_secs(30)
}

/// The state of a serialized connection to a provider.
pub struct SocketTransport {
    next_id: u64,
    peer_version: u32,
}

/// What becomes of a reply read for the request `id`: it must echo that id. A
/// mismatch means that the stream is out of step (such as after a call that timed
/// out and whose late reply is still buffered), and accepting it would hand the
/// caller another path's data.
pub open spec fn accepted_reply(id: u64, reply: Result<(u64, Seq<u8>), FsError>) -> Result<
    Seq<u8>,
    FsError,
> {
    match reply {
        Err(e) => Err(e),
        Ok((reply_id, payload)) => if reply_id != id {
            Err(FsError::InvalidData(DataFault::ResponseIdMismatch))
        } else {
            Ok(payload)
        },
    }
}

impl SocketTransport {
    /// The id of the next request.
    pub closed spec fn next(&self) -> u64 {
        self.next_id
    }

    /// The protocol version of the peer.
    pub closed spec fn version(&self) -> u32 {
        self.peer_version
    }

    /// Finish the requester's half of the hello handshake: validate the peer's
    /// hello, which answers our own.
    pub fn connect(peer_hello: &[u8]) -> (r: Result<SocketTransport, FsError>)
        ensures
            match parsed_hello(peer_hello@) {
                Err(e) => r == Err::<SocketTransport, FsError>(e),
                Ok(version) => r matches Ok(t) && t.next() == 1 && t.version() == version,
            },
    {
        let mut input: &[u8] = peer_hello;
        match read_hello(&mut input) {
            Err(e) => Err(e),
            Ok(version) => Ok(SocketTransport::with_peer_version(version)),
        }
    }

    /// A connection whose peer shook hands out of band.
    pub fn new() -> (r: SocketTransport)
        ensures
            r.next() == 1,
            r.version() == PROTOCOL_VERSION,
    {
        SocketTransport::with_peer_version(PROTOCOL_VERSION)
    }

    /// A connection to a peer of the given version.
    pub fn with_peer_version(peer_version: u32) -> (r: SocketTransport)
        ensures
            r.next() == 1,
            r.version() == peer_version,
    {
        SocketTransport { next_id: 1, peer_version }
    }

    /// Peer protocol version from the hello handshake.
    pub fn peer_protocol_version(&self) -> (r: u32)
        ensures
            r == self.version(),
    {
        self.peer_version
    }

    /// Stamp and frame an encoded request. The id is used up even where the
    /// request is too large to be framed.
    pub fn begin_call(&mut self, payload: &[u8]) -> (r: Result<(u64, Vec<u8>), FsError>)
        ensures
            final(self).version() == old(self).version(),
            final(self).next() == old(self).next().wrapping_add(1),
            frame_view(r) == (if payload@.len() > MAX_FRAME_LEN {
                Err::<(u64, Seq<u8>), FsError>(FsError::InvalidInput)
            } else {
                Ok((old(self).next(), frame(old(self).next(), payload@)))
            }),
    {
        let id = self.next_id;
        self.next_id = id.wrapping_add(1);
        let mut out: Vec<u8> = Vec::new();
        match write_frame(&mut out, id, payload) {
            Err(e) => Err(e),
            Ok(_) => {
                assert(out@ =~= frame(id, payload@));
                Ok((id, out))
            },
        }
    }

    /// Accept the reply to the request `id`, if it is one.
    pub fn finish_call(id: u64, reply: Result<(u64, Vec<u8>), FsError>) -> (r: Result<
        Vec<u8>,
        FsError,
    >)
        ensures
            bytes_of(r) == accepted_reply(id, frame_view(reply)),
    {
        match reply {
            Err(e) => Err(e),
            Ok((reply_id, payload)) => {
                if reply_id != id {
                    return Err(FsError::InvalidData(DataFault::ResponseIdMismatch));
                }
                Ok(payload)
            },
        }
    }
}

/// A late reply is never taken for the reply to a later request: until the ids
/// run out, `k` calls later another id is expected.
pub proof fn late_replies_are_rejected(id: u64, k: u64, payload: Seq<u8>)
    requires
        k > 0,
    ensures
        accepted_reply(id.wrapping_add(k), Ok((id, payload))) == Err::<Seq<u8>, FsError>(
            FsError::InvalidData(DataFault::ResponseIdMismatch),
        ),
{
}

/// A reply framed under the id of its request is accepted, with its payload,
/// whatever follows it on the stream.
pub proof fn replies_in_step_are_accepted(id: u64, payload: Seq<u8>, rest: Seq<u8>)
    requires
        payload.len() <= MAX_FRAME_LEN,
    ensures
        accepted_reply(id, parsed_frame(frame(id, payload) + rest)) == Ok::<Seq<u8>, FsError>(
            payload,
        ),
        after_frame(frame(id, payload) + rest) == rest,
{
    frames_round_trip(id, payload, rest);
}

} // verus!
