//! The business logic and the multiplexer that tags each of its results with
//! the identifier of the request it answers.
use crate::codec::RequestId;
use crate::error::ProtoError;
use crate::registry::Token;
use crate::transport::Framed;
use crate::wire::{
    decode_step, frame_bytes, framable, lemma_consumed, lemma_decoded_frame,
    lemma_framable_chars, Decoded,
    TERMINATOR,
};
use vstd::prelude::*;
use vstd::string::StringSliceAdditionalSpecFns;
use vstd::utf8::*;

verus! {

/// The service that answers every request with the request itself.
#[derive(Debug, Clone, Copy)]
pub struct EchoService;

impl EchoService {
    /// Answers `req` with `req`. It never fails.
    pub fn call(&self, req: String) -> (r: Result<String, ProtoError>)
        ensures
            r == Ok::<String, ProtoError>(req),
    {
        Ok(req)
    }
}

/// The services a server can run; one is chosen when the server starts.
#[derive(Debug, Clone, Copy)]
pub enum Service {
    /// Send every payload back.
    Echo(EchoService),
}

/// A result of the business logic as text: the answer, or the reason of the
/// failure.
pub open spec fn outcome_text(outcome: Result<String, ProtoError>) -> Result<
    Seq<char>,
    Seq<char>,
> {
    match outcome {
        Ok(answer) => Ok(answer@),
        Err(e) => Err(e.text()),
    }
}

impl Service {
    /// What the service makes of a request.
    pub open spec fn answer(&self, req: Seq<char>) -> Result<Seq<char>, Seq<char>> {
        match *self {
            Service::Echo(_) => Ok(req),
        }
    }

    /// Runs the service on one request.
    pub fn call(&self, req: String) -> (r: Result<String, ProtoError>)
        ensures
            outcome_text(r) == self.answer(req@),
    {
        match self {
            Service::Echo(echo) => echo.call(req),
        }
    }
}

/// The text that reports a result that cannot be framed.
pub open spec fn unframable_notice() -> Seq<char> {
    (ProtoError::TerminatorInPayload).text()
}

/// The payload that goes back to the client for a result of the business
/// logic: the answer on success, the reason on failure, and in place of
/// either the notice above when the text holds a terminator.
pub open spec fn reply_text(outcome: Result<Seq<char>, Seq<char>>) -> Seq<char> {
    let text = match outcome {
        Ok(answer) => answer,
        Err(reason) => reason,
    };
    if framable(text) {
        text
    } else {
        unframable_notice()
    }
}

/// Whether `text` can be framed: whether none of its bytes is the terminator.
pub fn is_framable(text: &str) -> (ok: bool)
    ensures
        ok == framable(text@),
{
    let bytes = text.as_bytes();
    let mut i: usize = 0;
    while i < bytes.len()
        invariant
            bytes@ == encode_utf8(text@),
            forall|k: int| 0 <= k < i && k < bytes@.len() ==> bytes@[k] != TERMINATOR,
        decreases bytes.len() - i,
    {
        if bytes[i] == TERMINATOR {
            return false;
        }
        i += 1;
    }
    true
}

/// The notice can itself be framed.
pub proof fn lemma_notice_framable()
    ensures
        framable(unframable_notice()),
{
    reveal_strlit("terminator in payload");
    let notice = unframable_notice();
    lemma_framable_chars(notice);
    assert forall|i: int| 0 <= i < notice.len() implies notice[i] != '\n' by {}
}

/// The text of a reply can always be framed.
pub proof fn lemma_reply_framable(outcome: Result<Seq<char>, Seq<char>>)
    ensures
        framable(reply_text(outcome)),
{
    lemma_notice_framable();
}

/// Computes the payload that answers a request from the result of the
/// business logic.
pub fn reply_payload(outcome: Result<String, ProtoError>) -> (payload: String)
    ensures
        payload@ == reply_text(outcome_text(outcome)),
{
    let text = match outcome {
        Ok(answer) => answer,
        Err(e) => e.message(),
    };
    if is_framable(text.as_str()) {
        text
    } else {
        (ProtoError::TerminatorInPayload).message()
    }
}

/// A result of the business logic on its way back to the client. It belongs
/// to the connection and the request it came from until it is written out.
#[derive(Debug, PartialEq, Eq)]
pub struct Pending {
    /// The identifier of the connection the request arrived on.
    pub token: Token,
    /// The number of that connection.
    pub generation: u64,
    /// The tag of the request.
    pub request_id: RequestId,
    /// What the business logic made of it.
    pub outcome: Result<String, ProtoError>,
}

/// What becomes of a buffer of received bytes when every whole frame in it
/// is answered.
pub struct Served {
    /// The bytes of the replies, in the order of the requests.
    pub replies: Seq<u8>,
    /// The bytes that stay in the buffer.
    pub rest: Seq<u8>,
    /// The number of frames answered.
    pub frames: nat,
    /// Whether a frame with a payload that is no text stopped the work.
    pub fatal: bool,
}

/// Answers the frames at the front of `buf` one after the other, until the
/// buffer asks for more bytes or a payload is not text.
pub open spec fn serve_all(service: Service, buf: Seq<u8>) -> Served
    decreases buf.len(),
    via serve_all_decreases
{
    match decode_step(buf) {
        Decoded::NeedMoreBytes => Served {
            replies: Seq::empty(),
            rest: buf,
            frames: 0,
            fatal: false,
        },
        Decoded::Fatal { consumed } => Served {
            replies: Seq::empty(),
            rest: buf.skip(consumed as int),
            frames: 0,
            fatal: true,
        },
        Decoded::Frame { request_id, payload, consumed } => {
            let next = serve_all(service, buf.skip(consumed as int));
            Served {
                replies: frame_bytes(request_id, reply_text(service.answer(payload)))
                    + next.replies,
                rest: next.rest,
                frames: next.frames + 1,
                fatal: next.fatal,
            }
        },
    }
}

#[via_fn]
proof fn serve_all_decreases(service: Service, buf: Seq<u8>) {
    lemma_consumed(buf);
}

/// The echo service sends back the very bytes it was sent: the replies are
/// the front of the buffer, and unless a payload was no text, replies and
/// what stays in the buffer make up the buffer.
pub proof fn lemma_echo_replies(echo: EchoService, buf: Seq<u8>)
    ensures
        ({
            let served = serve_all(Service::Echo(echo), buf);
            &&& served.replies.len() <= buf.len()
            &&& served.replies == buf.subrange(0, served.replies.len() as int)
            &&& !served.fatal ==> served.replies + served.rest == buf
        }),
    decreases buf.len(),
{
    let service = Service::Echo(echo);
    let served = serve_all(service, buf);
    lemma_consumed(buf);
    match decode_step(buf) {
        Decoded::NeedMoreBytes => {
            assert(served.replies + served.rest =~= buf);
            assert(served.replies =~= buf.subrange(0, 0));
        },
        Decoded::Fatal { consumed } => {
            assert(served.replies =~= buf.subrange(0, 0));
        },
        Decoded::Frame { request_id, payload, consumed } => {
            let tail = buf.skip(consumed as int);
            let next = serve_all(service, tail);
            lemma_decoded_frame(buf);
            lemma_echo_replies(echo, tail);
            assert(reply_text(service.answer(payload)) == payload);
            assert(served.replies == buf.subrange(0, consumed as int) + next.replies);
            assert(served.replies =~= buf.subrange(0, served.replies.len() as int));
            if !served.fatal {
                assert(served.replies + served.rest =~= buf.subrange(0, consumed as int) + (
                next.replies + next.rest));
                assert(buf.subrange(0, consumed as int) + tail =~= buf);
            }
        },
    }
}

/// Routes each request through the service and each result back under the
/// tag of its request.
#[derive(Debug, Clone, Copy)]
pub struct Dispatcher {
    /// The business logic.
    pub service: Service,
}

impl Dispatcher {
    /// A dispatcher for the given service.
    pub fn new(service: Service) -> (d: Dispatcher)
        ensures
            d.service == service,
    {
        Dispatcher { service }
    }

    /// Runs the business logic on one frame that arrived on the connection
    /// `token` with number `generation`. The result keeps the tag of the
    /// frame.
    pub fn dispatch(&self, token: Token, generation: u64, frame: (RequestId, String)) -> (p:
        Pending)
        ensures
            p.token == token,
            p.generation == generation,
            p.request_id == frame.0,
            outcome_text(p.outcome) == self.service.answer(frame.1@),
    {
        let (request_id, payload) = frame;
        let outcome = self.service.call(payload);
        Pending { token, generation, request_id, outcome }
    }

    /// Answers every whole frame that has arrived on the transport: each is
    /// decoded, run through the service and its reply queued, in the order
    /// of arrival. Returns the number of frames answered, or `InvalidString`
    /// when a payload that is no text stopped the work; the replies to the
    /// frames before it are queued all the same.
    pub fn serve(&self, transport: &mut Framed, token: Token) -> (r: Result<usize, ProtoError>)
        ensures
            ({
                let served = serve_all(self.service, old(transport).inbound());
                &&& final(transport).inbound() == served.rest
                &&& final(transport).outbound() == old(transport).outbound() + served.replies
                &&& final(transport).same_connection(old(transport))
                &&& served.fatal ==> r == Err::<usize, ProtoError>(ProtoError::InvalidString)
                &&& !served.fatal ==> r == Ok::<usize, ProtoError>(served.frames as usize)
            }),
    {
        let mut count: usize = 0;
        let arrived: usize = transport.io.read_buf.len();
        loop
            invariant
                arrived == old(transport).inbound().len(),
                transport.same_connection(old(transport)),
                serve_all(self.service, old(transport).inbound()).rest == serve_all(
                    self.service,
                    transport.inbound(),
                ).rest,
                serve_all(self.service, old(transport).inbound()).fatal == serve_all(
                    self.service,
                    transport.inbound(),
                ).fatal,
                serve_all(self.service, old(transport).inbound()).frames == count + serve_all(
                    self.service,
                    transport.inbound(),
                ).frames,
                old(transport).outbound() + serve_all(
                    self.service,
                    old(transport).inbound(),
                ).replies == transport.outbound() + serve_all(
                    self.service,
                    transport.inbound(),
                ).replies,
                count + transport.inbound().len() <= arrived,
            decreases transport.inbound().len(),
        {
            let ghost before = *transport;
            proof {
                lemma_consumed(before.inbound());
            }
            match transport.poll() {
                Ok(Some(frame)) => {
                    let pending = self.dispatch(token, transport.io.generation, frame);
                    self.respond(transport, pending.request_id, pending.outcome);
                    count += 1;
                    proof {
                        let step = decode_step(before.inbound());
                        let next = serve_all(self.service, transport.inbound());
                        assert(transport.outbound() + next.replies =~= before.outbound() + (
                        frame_bytes(
                            step->request_id,
                            reply_text(self.service.answer(step->payload)),
                        ) + next.replies));
                    }
                },
                Ok(None) => {
                    assert(transport.outbound() + Seq::<u8>::empty() =~= transport.outbound());
                    return Ok(count);
                },
                Err(e) => {
                    assert(transport.outbound() + Seq::<u8>::empty() =~= transport.outbound());
                    return Err(e);
                },
            }
        }
    }

    /// Queues the reply to one request on the transport: one frame with the
    /// tag of the request and the payload that `reply_text` gives.
    pub fn respond(
        &self,
        transport: &mut Framed,
        request_id: RequestId,
        outcome: Result<String, ProtoError>,
    )
        ensures
            final(transport).outbound() == old(transport).outbound() + frame_bytes(
                request_id,
                reply_text(outcome_text(outcome)),
            ),
            final(transport).inbound() == old(transport).inbound(),
            final(transport).same_connection(old(transport)),
    {
        let payload = reply_payload(outcome);
        let _ = transport.start_send((request_id, payload));
    }
}

} // verus!
