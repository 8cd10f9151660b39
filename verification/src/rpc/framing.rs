//! The byte stream between the two ends: the hello handshake and length-framed
//! messages.
//!
//! Input is read from the front of a byte slice, which is left at what follows.

use super::protocol::{MAX_FRAME_LEN, PROTOCOL_VERSION};
use crate::bytes::copy_bytes;
use crate::error::{DataFault, FsError};
use crate::wire::{
    be32, be32_round_trips, be64, be64_round_trips, from_be32, from_be64, push_be32, push_be64,
    read_be32, read_be64,
};
use vstd::prelude::*;

verus! {

/// The bytes of a hello.
pub const HELLO_LEN: usize = 8;

/// The bytes of a frame header.
pub const FRAME_HEADER_LEN: usize = 12;

/// The magic prefix that identifies the protocol in a hello: `MVFS`.
pub open spec fn hello_magic() -> Seq<u8> {
    seq![77u8, 86u8, 70u8, 83u8]
}

/// The hello: the magic prefix, then the protocol version.
pub open spec fn hello() -> Seq<u8> {
    hello_magic() + be32(PROTOCOL_VERSION)
}

/// Write the 8-byte hello: the magic prefix, then the protocol version
/// big-endian.
pub fn write_hello(w: &mut Vec<u8>) -> (r: Result<(), FsError>)
    ensures
        r == Ok::<(), FsError>(()),
        final(w)@ == old(w)@ + hello(),
{
    w.push(77);
    w.push(86);
    w.push(70);
    w.push(83);
    push_be32(w, PROTOCOL_VERSION);
    assert(w@ =~= old(w)@ + hello());
    Ok(())
}

/// What the hello at the front of `s` says: the version of the peer, as far as
/// the peer speaks this protocol in this version.
pub open spec fn parsed_hello(s: Seq<u8>) -> Result<u32, FsError> {
    if s.len() < HELLO_LEN {
        Err(FsError::UnexpectedEof)
    } else if s.take(4) != hello_magic() {
        Err(FsError::InvalidData(DataFault::BadMagic))
    } else {
        let version = from_be32(s.skip(4));
        if version != PROTOCOL_VERSION {
            Err(FsError::InvalidData(DataFault::UnsupportedVersion(version)))
        } else {
            Ok(version)
        }
    }
}

/// Read and validate a hello, returning the peer's protocol version. The bytes
/// of the hello are used up; where there are too few, all are.
pub fn read_hello(r: &mut &[u8]) -> (res: Result<u32, FsError>)
    ensures
        res == parsed_hello(old(r)@),
        final(r)@ == (if old(r)@.len() < HELLO_LEN {
            Seq::empty()
        } else {
            old(r)@.skip(HELLO_LEN as int)
        }),
{
    let s: &[u8] = *r;
    if s.len() < HELLO_LEN {
        *r = vstd::slice::slice_subrange(s, s.len(), s.len());
        assert(r@ =~= Seq::empty());
        return Err(FsError::UnexpectedEof);
    }
    *r = vstd::slice::slice_subrange(s, HELLO_LEN, s.len());
    assert(r@ =~= s@.skip(HELLO_LEN as int));
    let magic = s[0] == 77 && s[1] == 86 && s[2] == 70 && s[3] == 83;
    assert(magic == (s@.take(4) == hello_magic())) by {
        if magic {
            assert(s@.take(4) =~= hello_magic());
        } else {
            assert(s@.take(4)[0] == s@[0] && s@.take(4)[1] == s@[1] && s@.take(4)[2] == s@[2]
                && s@.take(4)[3] == s@[3]);
        }
    }
    if !magic {
        return Err(FsError::InvalidData(DataFault::BadMagic));
    }
    let version = read_be32(s, 4);
    if version != PROTOCOL_VERSION {
        return Err(FsError::InvalidData(DataFault::UnsupportedVersion(version)));
    }
    Ok(version)
}

/// A peer of this version accepts the hello, and reads no byte beyond it.
pub proof fn hello_is_accepted(rest: Seq<u8>)
    ensures
        parsed_hello(hello() + rest) == Ok::<u32, FsError>(PROTOCOL_VERSION),
        (hello() + rest).skip(HELLO_LEN as int) == rest,
{
    let s = hello() + rest;
    assert(s.take(4) =~= hello_magic());
    assert(s.skip(4) =~= be32(PROTOCOL_VERSION) + rest);
    be32_round_trips(PROTOCOL_VERSION, rest);
    assert(s.skip(HELLO_LEN as int) =~= rest);
}

/// The header of a frame.
pub open spec fn frame_header(len: u32, request_id: u64) -> Seq<u8> {
    be32(len) + be64(request_id)
}

/// A frame: a big-endian payload length, a big-endian request id, then the
/// payload.
pub open spec fn frame(request_id: u64, payload: Seq<u8>) -> Seq<u8> {
    frame_header(payload.len() as u32, request_id) + payload
}

/// Write a frame: a big-endian `u32` payload length, a big-endian `u64`
/// `request_id`, then the payload. Nothing is written of a payload that is too
/// large.
pub fn write_frame(w: &mut Vec<u8>, request_id: u64, payload: &[u8]) -> (r: Result<(), FsError>)
    ensures
        if payload@.len() > MAX_FRAME_LEN {
            r == Err::<(), FsError>(FsError::InvalidInput) && final(w)@ == old(w)@
        } else {
            r == Ok::<(), FsError>(()) && final(w)@ == old(w)@ + frame(request_id, payload@)
        },
{
    if payload.len() > MAX_FRAME_LEN as usize {
        return Err(FsError::InvalidInput);
    }
    push_be32(w, payload.len() as u32);
    push_be64(w, request_id);
    w.extend_from_slice(payload);
    assert(w@ =~= old(w)@ + frame(request_id, payload@));
    Ok(())
}

/// What a frame header says: the length of the payload and the request id, as
/// far as a payload may be that long.
pub open spec fn parsed_header(s: Seq<u8>) -> Result<(u32, u64), FsError> {
    if s.len() < FRAME_HEADER_LEN {
        Err(FsError::UnexpectedEof)
    } else if from_be32(s) > MAX_FRAME_LEN {
        Err(FsError::InvalidData(DataFault::FrameTooLarge))
    } else {
        Ok((from_be32(s), from_be64(s.skip(4))))
    }
}

/// Read a frame header. The length is checked, which bounds the allocation that
/// a corrupt prefix can force.
pub fn read_frame_header(head: &[u8]) -> (r: Result<(u32, u64), FsError>)
    ensures
        r == parsed_header(head@),
{
    if head.len() < FRAME_HEADER_LEN {
        return Err(FsError::UnexpectedEof);
    }
    assert(head@.skip(0) =~= head@);
    let len = read_be32(head, 0);
    if len > MAX_FRAME_LEN {
        return Err(FsError::InvalidData(DataFault::FrameTooLarge));
    }
    Ok((len, read_be64(head, 4)))
}

/// What the frame at the front of `s` holds.
pub open spec fn parsed_frame(s: Seq<u8>) -> Result<(u64, Seq<u8>), FsError> {
    match parsed_header(s) {
        Err(e) => Err(e),
        Ok((len, request_id)) => if s.len() < FRAME_HEADER_LEN + len {
            Err(FsError::UnexpectedEof)
        } else {
            Ok((request_id, s.subrange(FRAME_HEADER_LEN as int, FRAME_HEADER_LEN + len)))
        },
    }
}

/// What is left of `s` after a frame was read from its front: everything behind
/// the frame, everything behind the header where the frame is too large, and
/// nothing where the input ends early.
pub open spec fn after_frame(s: Seq<u8>) -> Seq<u8> {
    match parsed_frame(s) {
        Ok((_, payload)) => s.skip(FRAME_HEADER_LEN + payload.len()),
        Err(e) => if e == FsError::UnexpectedEof {
            Seq::empty()
        } else {
            s.skip(FRAME_HEADER_LEN as int)
        },
    }
}

/// The id and payload of a frame.
pub open spec fn frame_view(r: Result<(u64, Vec<u8>), FsError>) -> Result<
    (u64, Seq<u8>),
    FsError,
> {
    match r {
        Ok((id, payload)) => Ok((id, payload@)),
        Err(e) => Err(e),
    }
}

/// Read a single frame written by [`write_frame`], returning its `request_id`
/// and payload.
pub fn read_frame(r: &mut &[u8]) -> (res: Result<(u64, Vec<u8>), FsError>)
    ensures
        frame_view(res) == parsed_frame(old(r)@),
        final(r)@ == after_frame(old(r)@),
{
    let s: &[u8] = *r;
    match read_frame_header(s) {
        Err(e) => {
            let used = if s.len() < FRAME_HEADER_LEN {
                s.len()
            } else {
                FRAME_HEADER_LEN
            };
            *r = vstd::slice::slice_subrange(s, used, s.len());
            assert(r@ =~= after_frame(s@));
            Err(e)
        },
        Ok((len, request_id)) => {
            let len = len as usize;
            if s.len() - FRAME_HEADER_LEN < len {
                *r = vstd::slice::slice_subrange(s, s.len(), s.len());
                assert(r@ =~= after_frame(s@));
                return Err(FsError::UnexpectedEof);
            }
            let end = FRAME_HEADER_LEN + len;
            let payload = copy_bytes(vstd::slice::slice_subrange(s, FRAME_HEADER_LEN, end));
            *r = vstd::slice::slice_subrange(s, end, s.len());
            assert(r@ =~= after_frame(s@));
            Ok((request_id, payload))
        },
    }
}

/// What is read from a stream of frames is what was written: the id and the
/// payload of the first frame, with the rest left untouched.
pub proof fn frames_round_trip(request_id: u64, payload: Seq<u8>, rest: Seq<u8>)
    requires
        payload.len() <= MAX_FRAME_LEN,
    ensures
        parsed_frame(frame(request_id, payload) + rest) == Ok::<(u64, Seq<u8>), FsError>(
            (request_id, payload),
        ),
        after_frame(frame(request_id, payload) + rest) == rest,
{
    let len = payload.len() as u32;
    let s = frame(request_id, payload) + rest;
    assert(s =~= be32(len) + (be64(request_id) + payload + rest));
    be32_round_trips(len, be64(request_id) + payload + rest);
    assert(s.skip(4) =~= be64(request_id) + (payload + rest));
    be64_round_trips(request_id, payload + rest);
    assert(s.subrange(FRAME_HEADER_LEN as int, FRAME_HEADER_LEN + len) =~= payload);
    assert(s.skip(FRAME_HEADER_LEN + payload.len()) =~= rest);
}

} // verus!
