//! The provider's side of a serialized byte stream: the loop that shakes hands,
//! takes one request at a time, and answers it.
//!
//! [`serve`] decides what to do next. Whoever owns the stream performs the
//! action it is told (read, encode, write), and reports what came of it as the
//! next event.

use super::dispatch::{answered, dispatch, on_wire, request_check};
use super::framing::{
    frame, hello, hello_is_accepted, parsed_hello, read_hello, write_frame, write_hello,
};
use super::messages::{
    decode_errno, decode_error_errno, limits_check, validate_request_limits, RequestV, ResponseV,
    VfsRequest, VfsResponse,
};
use super::protocol::{MAX_FRAME_LEN, PROTOCOL_VERSION};
use crate::error::FsError;
use crate::path_fs::PathFs;
use crate::platform::{wire_errno, LINUX_EIO};
use vstd::prelude::*;

verus! {

/// Where a connection stands.
#[derive(Debug, Clone, Copy, PartialEq, Eq, Structural)]
pub enum ServeState {
    /// Nothing has been exchanged yet.
    AwaitingHello,
    /// Our hello or a reply is being written.
    Writing,
    /// The next request is awaited.
    AwaitingRequest,
    /// The response to the request `id` is being encoded.
    Encoding { id: u64 },
    /// The failure that stands in for an oversized response to the request `id`
    /// is being encoded.
    EncodingFailure { id: u64 },
    /// The connection is over.
    Closed,
}

/// What happened on the stream.
pub enum ServeEvent {
    /// The bytes of the peer's hello arrived, or as many as there were.
    Hello(Vec<u8>),
    /// A frame arrived: its id, and the request its payload decodes to.
    Request { id: u64, request: Result<VfsRequest, FsError> },
    /// No further frame could be read.
    ReadFailed(FsError),
    /// A response was encoded.
    Encoded(Vec<u8>),
    /// What was to be written was written, or not.
    Written(Result<(), FsError>),
}

/// What to do next.
pub enum ServeAction {
    /// Write these bytes.
    Write(Vec<u8>),
    /// Read the next frame and decode its payload.
    ReadRequest,
    /// Encode this response.
    Encode(VfsResponse),
    /// Stop, with this result.
    Stop(Result<(), FsError>),
}

/// The request to answer: one that does not decode, or that is too large, is
/// rejected.
pub open spec fn decoded(parsed: Result<VfsRequest, FsError>) -> Result<VfsRequest, FsError> {
    match parsed {
        Err(e) => Err(e),
        Ok(req) => match limits_check(req@) {
            Err(e) => Err(e),
            Ok(_) => Ok(req),
        },
    }
}

/// Reject oversize batches and payloads of a decoded request.
pub fn decode_request(parsed: Result<VfsRequest, FsError>) -> (r: Result<VfsRequest, FsError>)
    ensures
        r == decoded(parsed),
{
    match parsed {
        Err(e) => Err(e),
        Ok(req) => match validate_request_limits(&req) {
            Err(e) => Err(e),
            Ok(_) => Ok(req),
        },
    }
}

/// The response of the serving side to a request: that of the provider, unless
/// the request is too large.
pub open spec fn served<P: PathFs>(p: P, req: RequestV, resp: ResponseV) -> bool {
    match limits_check(req) {
        Err(e) => resp == ResponseV::Errno(decode_errno(e)),
        Ok(_) => exists|r: Result<ResponseV, FsError>| #[trigger]
            answered(p, req, r) && resp == on_wire(r),
    }
}

/// The verdict on a request by itself: on its sizes, and on its paths and names.
pub open spec fn refusal(req: RequestV) -> Option<i32> {
    match limits_check(req) {
        Err(e) => Some(decode_errno(e)),
        Ok(_) => match request_check(req) {
            Err(e) => Some(wire_errno(e)),
            Ok(_) => None,
        },
    }
}

/// A refused request gets the errno of its refusal as its response, which does not
/// depend on the provider.
pub proof fn refused_requests_get_their_errno<P: PathFs>(p: P, req: RequestV, resp: ResponseV)
    requires
        refusal(req) is Some,
    ensures
        served(p, req, resp) <==> resp == ResponseV::Errno(refusal(req)->0),
{
    if let Err(e) = request_check(req) {
        let r = Err::<ResponseV, FsError>(e);
        assert(answered(p, req, r));
    }
}

/// The response to a request as it was decoded, or the errno of the failure to
/// decode.
pub open spec fn responded<P: PathFs>(
    p: P,
    parsed: Result<VfsRequest, FsError>,
    resp: ResponseV,
) -> bool {
    match parsed {
        Err(e) => resp == ResponseV::Errno(decode_errno(e)),
        Ok(req) => served(p, req@, resp),
    }
}

/// Respond to a request as it was decoded.
pub fn respond<P: PathFs>(provider: &P, parsed: Result<VfsRequest, FsError>) -> (resp: VfsResponse)
    ensures
        responded(*provider, parsed, resp@),
{
    match decode_request(parsed) {
        Ok(req) => dispatch(provider, req),
        Err(e) => VfsResponse::Errno(decode_error_errno(&e)),
    }
}

/// What follows an encoded payload for the request `id`: it is framed and
/// written. In place of one that is too large, an `EIO` is encoded; where that
/// is too large as well, nothing is left to send.
pub open spec fn reply_step(
    id: u64,
    payload: Seq<u8>,
    last: bool,
    next: ServeState,
    action: ServeAction,
) -> bool {
    if payload.len() <= MAX_FRAME_LEN {
        &&& next == ServeState::Writing
        &&& action matches ServeAction::Write(bytes) && bytes@ == frame(id, payload)
    } else if last {
        &&& next == ServeState::Closed
        &&& action matches ServeAction::Stop(r) && r == Err::<(), FsError>(FsError::InvalidInput)
    } else {
        &&& next == ServeState::EncodingFailure { id }
        &&& action matches ServeAction::Encode(resp) && resp@ == ResponseV::Errno(LINUX_EIO)
    }
}

/// One step of the loop: the next state and action for what happened.
pub open spec fn serve_step<P: PathFs>(
    p: P,
    state: ServeState,
    event: ServeEvent,
    next: ServeState,
    action: ServeAction,
) -> bool {
    match (state, event) {
        (ServeState::AwaitingHello, ServeEvent::Hello(bytes)) => match parsed_hello(bytes@) {
            Ok(_) => {
                &&& next == ServeState::Writing
                &&& action matches ServeAction::Write(out) && out@ == hello()
            },
            Err(e) => {
                &&& next == ServeState::Closed
                &&& action matches ServeAction::Stop(r) && r == Err::<(), FsError>(e)
            },
        },
        (ServeState::Writing, ServeEvent::Written(Ok(_))) => {
            &&& next == ServeState::AwaitingRequest
            &&& action is ReadRequest
        },
        (ServeState::Writing, ServeEvent::Written(Err(e))) => {
            &&& next == ServeState::Closed
            &&& action matches ServeAction::Stop(r) && r == Err::<(), FsError>(e)
        },
        (ServeState::AwaitingRequest, ServeEvent::ReadFailed(e)) => {
            &&& next == ServeState::Closed
            &&& action matches ServeAction::Stop(r) && r == (if e == FsError::UnexpectedEof {
                Ok::<(), FsError>(())
            } else {
                Err(e)
            })
        },
        (ServeState::AwaitingRequest, ServeEvent::Request { id, request }) => {
            &&& next == ServeState::Encoding { id }
            &&& action matches ServeAction::Encode(resp) && responded(p, request, resp@)
        },
        (ServeState::Encoding { id }, ServeEvent::Encoded(payload)) => reply_step(
            id,
            payload@,
            false,
            next,
            action,
        ),
        (ServeState::EncodingFailure { id }, ServeEvent::Encoded(payload)) => reply_step(
            id,
            payload@,
            true,
            next,
            action,
        ),
        _ => {
            &&& next == ServeState::Closed
            &&& action matches ServeAction::Stop(r) && r == Err::<(), FsError>(FsError::Other)
        },
    }
}

/// Two ends of this version understand each other: the hello of the one is
/// answered with a hello that it accepts.
pub proof fn both_ends_shake_hands<P: PathFs>(
    p: P,
    bytes: Vec<u8>,
    next: ServeState,
    action: ServeAction,
)
    requires
        bytes@ == hello(),
        serve_step(p, ServeState::AwaitingHello, ServeEvent::Hello(bytes), next, action),
    ensures
        next == ServeState::Writing,
        action matches ServeAction::Write(out) && parsed_hello(out@) == Ok::<u32, FsError>(
            PROTOCOL_VERSION,
        ),
{
    hello_is_accepted(Seq::empty());
    assert(hello() + Seq::empty() =~= hello());
}

/// A connection ends well only because the peer closed it, and stays over once
/// it is over.
pub proof fn serving_ends_well_only_at_the_end_of_input<P: PathFs>(
    p: P,
    state: ServeState,
    event: ServeEvent,
    next: ServeState,
    action: ServeAction,
)
    requires
        serve_step(p, state, event, next, action),
    ensures
        action matches ServeAction::Stop(r) && r is Ok ==> state == ServeState::AwaitingRequest
            && event == ServeEvent::ReadFailed(FsError::UnexpectedEof),
        next == ServeState::Closed <==> action is Stop,
        state == ServeState::Closed ==> action is Stop,
{
}

/// Whether a connection in the state `state`, on which `events` happen, is told
/// to do `actions`: one for each event, each from the state that the one before
/// it led to.
pub open spec fn runs<P: PathFs>(
    p: P,
    state: ServeState,
    events: Seq<ServeEvent>,
    actions: Seq<ServeAction>,
) -> bool
    decreases events.len(),
{
    if events.len() == 0 {
        actions.len() == 0
    } else {
        &&& actions.len() > 0
        &&& exists|next: ServeState| #[trigger]
            serve_step(p, state, events[0], next, actions[0]) && runs(
                p,
                next,
                events.drop_first(),
                actions.drop_first(),
            )
    }
}

/// The byte strings written by a sequence of actions, in order.
pub open spec fn written(actions: Seq<ServeAction>) -> Seq<Seq<u8>>
    decreases actions.len(),
{
    if actions.len() == 0 {
        Seq::empty()
    } else {
        let rest = written(actions.drop_first());
        match actions[0] {
            ServeAction::Write(bytes) => seq![bytes@] + rest,
            _ => rest,
        }
    }
}

/// The responses encoded by a sequence of actions, in order.
pub open spec fn encoded(actions: Seq<ServeAction>) -> Seq<ResponseV>
    decreases actions.len(),
{
    if actions.len() == 0 {
        Seq::empty()
    } else {
        let rest = encoded(actions.drop_first());
        match actions[0] {
            ServeAction::Encode(resp) => seq![resp@] + rest,
            _ => rest,
        }
    }
}

/// A request taken from the stream, and what its response encodes to.
pub struct Round {
    pub id: u64,
    pub request: Result<VfsRequest, FsError>,
    pub payload: Vec<u8>,
    /// What the failure encodes to that stands in for an oversized response.
    pub failure: Vec<u8>,
}

impl Round {
    /// Whether the response itself can be sent.
    pub open spec fn fits(self) -> bool {
        self.payload@.len() <= MAX_FRAME_LEN
    }

    /// The payload that is sent.
    pub open spec fn sent(self) -> Seq<u8> {
        if self.fits() {
            self.payload@
        } else {
            self.failure@
        }
    }

    /// What happens in a round that goes well.
    pub open spec fn events(self) -> Seq<ServeEvent> {
        let request = ServeEvent::Request { id: self.id, request: self.request };
        let done = ServeEvent::Written(Ok(()));
        if self.fits() {
            seq![request, ServeEvent::Encoded(self.payload), done]
        } else {
            seq![
                request,
                ServeEvent::Encoded(self.payload),
                ServeEvent::Encoded(self.failure),
                done,
            ]
        }
    }

    /// What is encoded in a round whose response is `resp`.
    pub open spec fn encodes(self, resp: ResponseV) -> Seq<ResponseV> {
        if self.fits() {
            seq![resp]
        } else {
            seq![resp, ResponseV::Errno(LINUX_EIO)]
        }
    }
}

/// What happens from the first request on, where every round goes well and then
/// no further frame can be read.
pub open spec fn rounds_then_end(rounds: Seq<Round>, end: FsError) -> Seq<ServeEvent>
    decreases rounds.len(),
{
    if rounds.len() == 0 {
        seq![ServeEvent::ReadFailed(end)]
    } else {
        rounds[0].events() + rounds_then_end(rounds.drop_first(), end)
    }
}

/// What happens on a whole connection: the peer's hello, which is answered, then
/// the rounds, then the end.
pub open spec fn connection(peer: Vec<u8>, rounds: Seq<Round>, end: FsError) -> Seq<ServeEvent> {
    seq![ServeEvent::Hello(peer), ServeEvent::Written(Ok(()))] + rounds_then_end(rounds, end)
}

/// The frames that answer the requests: one for each, under its id, in order.
pub open spec fn reply_frames(rounds: Seq<Round>) -> Seq<Seq<u8>> {
    Seq::new(rounds.len(), |i: int| frame(rounds[i].id, rounds[i].sent()))
}

/// What is encoded over the rounds, where `answers` are the responses.
pub open spec fn rounds_encode(rounds: Seq<Round>, answers: Seq<ResponseV>) -> Seq<ResponseV>
    decreases rounds.len(),
{
    if rounds.len() == 0 {
        Seq::empty()
    } else {
        rounds[0].encodes(answers[0]) + rounds_encode(rounds.drop_first(), answers.drop_first())
    }
}

/// Whether `answers` are the responses to the requests of the rounds, in order.
pub open spec fn answers_to<P: PathFs>(
    p: P,
    rounds: Seq<Round>,
    answers: Seq<ResponseV>,
) -> bool {
    &&& answers.len() == rounds.len()
    &&& forall|i: int|
        0 <= i < rounds.len() ==> responded(p, rounds[i].request, #[trigger] answers[i])
}

/// The result of a connection on which no further frame could be read.
pub open spec fn end_result(end: FsError) -> Result<(), FsError> {
    if end == FsError::UnexpectedEof {
        Ok(())
    } else {
        Err(end)
    }
}

/// The first event of a run, and the run that is left.
proof fn lemma_first_step<P: PathFs>(
    p: P,
    state: ServeState,
    events: Seq<ServeEvent>,
    actions: Seq<ServeAction>,
) -> (next: ServeState)
    requires
        events.len() > 0,
        runs(p, state, events, actions),
    ensures
        actions.len() > 0,
        serve_step(p, state, events[0], next, actions[0]),
        runs(p, next, events.drop_first(), actions.drop_first()),
{
    choose|next: ServeState| #[trigger]
        serve_step(p, state, events[0], next, actions[0]) && runs(
            p,
            next,
            events.drop_first(),
            actions.drop_first(),
        )
}

/// A round that goes well ends where it began: one response to its request is
/// encoded, and one frame is written under its id.
proof fn lemma_round<P: PathFs>(
    p: P,
    round: Round,
    rest: Seq<ServeEvent>,
    actions: Seq<ServeAction>,
) -> (r: (ResponseV, Seq<ServeAction>))
    requires
        round.sent().len() <= MAX_FRAME_LEN,
        runs(p, ServeState::AwaitingRequest, round.events() + rest, actions),
    ensures
        responded(p, round.request, r.0),
        runs(p, ServeState::AwaitingRequest, rest, r.1),
        written(actions) == seq![frame(round.id, round.sent())] + written(r.1),
        encoded(actions) == round.encodes(r.0) + encoded(r.1),
        actions.len() > 0,
        r.1.len() > 0 ==> actions.last() == r.1.last(),
{
    let id = round.id;
    let e0 = round.events() + rest;
    let a0 = actions;
    let s1 = lemma_first_step(p, ServeState::AwaitingRequest, e0, a0);
    let resp = a0[0]->Encode_0@;
    let (e1, a1) = (e0.drop_first(), a0.drop_first());
    let s2 = lemma_first_step(p, s1, e1, a1);
    let (e2, a2) = (e1.drop_first(), a1.drop_first());
    let s3 = lemma_first_step(p, s2, e2, a2);
    let (e3, a3) = (e2.drop_first(), a2.drop_first());
    reveal_with_fuel(written, 5);
    reveal_with_fuel(encoded, 5);
    if round.fits() {
        assert(e3 =~= rest);
        assert(written(actions) =~= seq![frame(id, round.sent())] + written(a3));
        assert(encoded(actions) =~= seq![resp] + encoded(a3));
        (resp, a3)
    } else {
        let s4 = lemma_first_step(p, s3, e3, a3);
        let (e4, a4) = (e3.drop_first(), a3.drop_first());
        assert(e4 =~= rest);
        assert(written(actions) =~= seq![frame(id, round.sent())] + written(a4));
        assert(encoded(actions) =~= seq![resp, ResponseV::Errno(LINUX_EIO)] + encoded(a4));
        (resp, a4)
    }
}

/// From the first request on, every request is answered once, in order.
proof fn lemma_rounds<P: PathFs>(
    p: P,
    rounds: Seq<Round>,
    end: FsError,
    actions: Seq<ServeAction>,
) -> (answers: Seq<ResponseV>)
    requires
        forall|i: int|
            0 <= i < rounds.len() ==> (#[trigger] rounds[i]).sent().len() <= MAX_FRAME_LEN,
        runs(p, ServeState::AwaitingRequest, rounds_then_end(rounds, end), actions),
    ensures
        answers_to(p, rounds, answers),
        written(actions) == reply_frames(rounds),
        encoded(actions) == rounds_encode(rounds, answers),
        actions.len() > 0,
        actions.last() == ServeAction::Stop(end_result(end)),
    decreases rounds.len(),
{
    if rounds.len() == 0 {
        let next = lemma_first_step(
            p,
            ServeState::AwaitingRequest,
            rounds_then_end(rounds, end),
            actions,
        );
        reveal_with_fuel(written, 2);
        reveal_with_fuel(encoded, 2);
        assert(actions.drop_first().len() == 0);
        Seq::empty()
    } else {
        let left = rounds.drop_first();
        let (resp, rest) = lemma_round(p, rounds[0], rounds_then_end(left, end), actions);
        assert forall|i: int| 0 <= i < left.len() implies (#[trigger] left[i]).sent().len()
            <= MAX_FRAME_LEN by {
            assert(left[i] == rounds[i + 1]);
        }
        let later = lemma_rounds(p, left, end, rest);
        let answers = seq![resp] + later;
        assert(answers.drop_first() =~= later);
        assert forall|i: int| 0 <= i < rounds.len() implies responded(
            p,
            rounds[i].request,
            #[trigger] answers[i],
        ) by {
            if i > 0 {
                assert(left[i - 1] == rounds[i]);
                assert(answers[i] == later[i - 1]);
            }
        }
        assert(written(actions) =~= reply_frames(rounds)) by {
            assert forall|i: int| 0 < i < rounds.len() implies #[trigger] reply_frames(rounds)[i]
                == reply_frames(left)[i - 1] by {
                assert(left[i - 1] == rounds[i]);
            }
        }
        answers
    }
}

/// A connection answers every request exactly once, in order: after a hello that
/// is accepted, what is written is our hello and then one frame for each request,
/// under the id of that request. What is encoded is the response to each request,
/// followed by an `EIO` where that response is too large to send. The connection
/// ends well where the input ends, and with the failure where reading fails
/// otherwise.
pub proof fn every_request_is_answered_once_in_order<P: PathFs>(
    p: P,
    peer: Vec<u8>,
    rounds: Seq<Round>,
    end: FsError,
    actions: Seq<ServeAction>,
)
    requires
        parsed_hello(peer@) is Ok,
        forall|i: int|
            0 <= i < rounds.len() ==> (#[trigger] rounds[i]).sent().len() <= MAX_FRAME_LEN,
        runs(p, ServeState::AwaitingHello, connection(peer, rounds, end), actions),
    ensures
        written(actions) == seq![hello()] + reply_frames(rounds),
        exists|answers: Seq<ResponseV>| #[trigger]
            answers_to(p, rounds, answers) && encoded(actions) == rounds_encode(rounds, answers),
        actions.len() > 0,
        actions.last() == ServeAction::Stop(end_result(end)),
{
    let e0 = connection(peer, rounds, end);
    let s1 = lemma_first_step(p, ServeState::AwaitingHello, e0, actions);
    let (e1, a1) = (e0.drop_first(), actions.drop_first());
    let s2 = lemma_first_step(p, s1, e1, a1);
    let (e2, a2) = (e1.drop_first(), a1.drop_first());
    assert(e2 =~= rounds_then_end(rounds, end));
    let answers = lemma_rounds(p, rounds, end, a2);
    reveal_with_fuel(written, 3);
    reveal_with_fuel(encoded, 3);
    assert(written(actions) =~= seq![hello()] + reply_frames(rounds));
    assert(answers_to(p, rounds, answers));
}

/// Decide what follows an encoded payload.
fn reply(id: u64, payload: &[u8], last: bool) -> (r: (ServeState, ServeAction))
    ensures
        reply_step(id, payload@, last, r.0, r.1),
{
    let mut out: Vec<u8> = Vec::new();
    match write_frame(&mut out, id, payload) {
        Ok(_) => {
            assert(out@ =~= frame(id, payload@));
            (ServeState::Writing, ServeAction::Write(out))
        },
        Err(e) => if last {
            (ServeState::Closed, ServeAction::Stop(Err(e)))
        } else {
            (
                ServeState::EncodingFailure { id },
                ServeAction::Encode(VfsResponse::Errno(LINUX_EIO)),
            )
        },
    }
}

/// Decide what to do next on a connection that `provider` serves.
///
/// Performs the responder's half of the hello handshake, then answers framed
/// requests one at a time. Ends well when the peer closes the stream between
/// frames or in one; any other failure ends it with that failure. An event that
/// does not fit the state ends it as well.
pub fn serve<P: PathFs>(provider: &P, state: ServeState, event: ServeEvent) -> (r: (
    ServeState,
    ServeAction,
))
    ensures
        serve_step(*provider, state, event, r.0, r.1),
{
    match (state, event) {
        (ServeState::AwaitingHello, ServeEvent::Hello(bytes)) => {
            let mut input: &[u8] = bytes.as_slice();
            match read_hello(&mut input) {
                Ok(_) => {
                    let mut out: Vec<u8> = Vec::new();
                    match write_hello(&mut out) {
                        Ok(_) => {
                            assert(out@ =~= hello());
                            (ServeState::Writing, ServeAction::Write(out))
                        },
                        Err(e) => (ServeState::Closed, ServeAction::Stop(Err(e))),
                    }
                },
                Err(e) => (ServeState::Closed, ServeAction::Stop(Err(e))),
            }
        },
        (ServeState::Writing, ServeEvent::Written(Ok(_))) => {
            (ServeState::AwaitingRequest, ServeAction::ReadRequest)
        },
        (ServeState::Writing, ServeEvent::Written(Err(e))) => {
            (ServeState::Closed, ServeAction::Stop(Err(e)))
        },
        (ServeState::AwaitingRequest, ServeEvent::ReadFailed(e)) => {
            if e == FsError::UnexpectedEof {
                (ServeState::Closed, ServeAction::Stop(Ok(())))
            } else {
                (ServeState::Closed, ServeAction::Stop(Err(e)))
            }
        },
        (ServeState::AwaitingRequest, ServeEvent::Request { id, request }) => {
            let resp = respond(provider, request);
            (ServeState::Encoding { id }, ServeAction::Encode(resp))
        },
        (ServeState::Encoding { id }, ServeEvent::Encoded(payload)) => {
            reply(id, payload.as_slice(), false)
        },
        (ServeState::EncodingFailure { id }, ServeEvent::Encoded(payload)) => {
            reply(id, payload.as_slice(), true)
        },
        _ => (ServeState::Closed, ServeAction::Stop(Err(FsError::Other))),
    }
}

} // verus!
