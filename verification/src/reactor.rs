//! The decisions of the server's loop. The loop itself waits for readiness,
//! accepts and reads; after each of these it asks the reactor what follows.
use crate::connection::{Connection, Lifecycle};
use crate::error::ProtoError;
use crate::registry::{Registry, Token, MAX_CAPACITY};
use crate::codec::RequestId;
use crate::service::{outcome_text, reply_text, serve_all, Dispatcher, Pending, Service};
use crate::wire::{decode_step, frame_bytes, Decoded};
use crate::transport::{Framed, LineProto};
use vstd::prelude::*;

verus! {

/// The number inside the identifier under which the listening socket is
/// registered. No connection is ever held under it.
pub const SERVER_TOKEN: usize = usize::MAX - 1;

/// What a socket is ready for, as the poller reports it.
#[derive(Debug, Clone, Copy, PartialEq, Eq, Structural)]
pub struct Ready {
    /// There is something to read or to accept.
    pub readable: bool,
    /// Bytes can be written.
    pub writable: bool,
    /// The socket is in error.
    pub error: bool,
    /// The peer hung up.
    pub hup: bool,
}

impl Ready {
    /// Ready to be read from, and nothing else.
    pub fn readable() -> (kind: Ready)
        ensures
            kind == (Ready { readable: true, writable: false, error: false, hup: false }),
    {
        Ready { readable: true, writable: false, error: false, hup: false }
    }

    /// Whether there is something to read or to accept.
    pub fn is_readable(&self) -> (yes: bool)
        ensures
            yes == self.readable,
    {
        self.readable
    }

    /// Whether bytes can be written.
    pub fn is_writable(&self) -> (yes: bool)
        ensures
            yes == self.writable,
    {
        self.writable
    }

    /// Whether the socket is in error.
    pub fn is_error(&self) -> (yes: bool)
        ensures
            yes == self.error,
    {
        self.error
    }

    /// Whether the peer hung up.
    pub fn is_hup(&self) -> (yes: bool)
        ensures
            yes == self.hup,
    {
        self.hup
    }
}

/// One readiness notification.
#[derive(Debug, Clone, Copy, PartialEq, Eq, Structural)]
pub struct Event {
    /// The socket it is about.
    pub token: Token,
    /// What the socket is ready for.
    pub kind: Ready,
}

impl Event {
    /// The event tells of trouble: an error, a hang-up, or anything but
    /// readiness to read.
    pub open spec fn is_trouble(&self) -> bool {
        self.kind.error || self.kind.hup || !self.kind.readable
    }

    /// The event for `token` with the readiness `kind`.
    pub fn new(token: Token, kind: Ready) -> (event: Event)
        ensures
            event == (Event { token, kind }),
    {
        Event { token, kind }
    }

    /// Whether the event tells of trouble.
    pub fn troubled(&self) -> (yes: bool)
        ensures
            yes == self.is_trouble(),
    {
        self.kind.is_error() || self.kind.is_hup() || !self.kind.is_readable()
    }
}

/// What the loop has to do after an event.
#[derive(Debug, Clone, Copy, PartialEq, Eq, Structural)]
pub enum Action {
    /// The listening socket failed: the process ends with a failure status.
    Shutdown,
    /// Accept connections until accepting would block, and report each.
    Accept,
    /// Read from this connection until reading would block, and report each
    /// result.
    Read(Token),
    /// The connection has been taken out of the registry: forget its socket.
    Closed(Token),
    /// The event concerns no connection that is held: nothing to do.
    Ignore,
}

/// The result of one attempt to read from a connection.
#[derive(Debug, PartialEq, Eq)]
pub enum ReadOutcome {
    /// The bytes that were read. None at all means that the peer has closed.
    Bytes(Vec<u8>),
    /// Nothing to read for now.
    WouldBlock,
    /// Any other failure.
    Failed,
}

/// Whether the loop goes on reading from the connection.
#[derive(Debug, Clone, Copy, PartialEq, Eq, Structural)]
pub enum Flow {
    /// Read again.
    Continue,
    /// Stop reading until the next event.
    Stop,
}

/// What became of a result of the business logic.
#[derive(Debug, Clone, Copy, PartialEq, Eq, Structural)]
pub enum Completion {
    /// The reply is queued on the connection the request came from.
    Queued,
    /// That connection is gone; the result was dropped.
    Stale,
}

/// Every entry but the one under `key` is the same in both maps.
pub open spec fn others_untouched(pre: Map<usize, Framed>, post: Map<usize, Framed>, key: usize)
    -> bool {
    forall|k: usize|
        #![trigger pre.contains_key(k)]
        #![trigger post.contains_key(k)]
        #![trigger pre[k]]
        #![trigger post[k]]
        k != key ==> (pre.contains_key(k) == post.contains_key(k)) && (pre.contains_key(k)
            ==> post[k] == pre[k])
}

/// What one read result does to the connection it was read from.
///
/// Bytes are appended to those received before and every whole frame among
/// them is answered; a payload that is no text marks the connection for
/// closing. So does a read of no bytes, or a failure. A read that would
/// block changes nothing.
pub open spec fn read_effect(service: Service, pre: Framed, outcome: ReadOutcome, post: Framed)
    -> bool {
    let arrived = outcome matches ReadOutcome::Bytes(bytes) && bytes@.len() > 0;
    let served = serve_all(service, pre.inbound() + outcome->Bytes_0@);
    &&& post.io.generation == pre.io.generation
    &&& post.inbound() == if arrived {
        served.rest
    } else {
        pre.inbound()
    }
    &&& post.outbound() == if arrived {
        pre.outbound() + served.replies
    } else {
        pre.outbound()
    }
    &&& post.io.state == if outcome is WouldBlock || (arrived && !served.fatal) {
        pre.io.state
    } else {
        Lifecycle::Closing
    }
}

/// Whether reading goes on after this result: only after bytes whose frames
/// were all text.
pub open spec fn reads_on(service: Service, pre: Framed, outcome: ReadOutcome) -> bool {
    &&& outcome matches ReadOutcome::Bytes(bytes)
    &&& bytes@.len() > 0
    &&& !serve_all(service, pre.inbound() + bytes@).fatal
}

/// The state of the server's loop: the open connections and what is needed
/// to serve them.
pub struct Reactor {
    /// The open connections.
    pub registry: Registry,
    /// How a new connection gets its transport.
    pub proto: LineProto,
    /// The business logic and its routing.
    pub dispatcher: Dispatcher,
    /// The number that the next accepted connection gets: the count of
    /// those accepted so far.
    pub next_generation: u64,
}

impl Reactor {
    /// The reactor is in order: so is its registry, and every connection
    /// held was numbered before the next number to give.
    pub open spec fn wf(&self) -> bool {
        &&& self.registry.wf()
        &&& forall|k: usize| #[trigger]
            self.registry@.contains_key(k) ==> self.registry@[k].io.generation
                < self.next_generation
    }

    /// The server's own parts are the same in both states; only the
    /// connections may differ.
    pub open spec fn same_setup(&self, other: &Reactor) -> bool {
        &&& self.dispatcher == other.dispatcher
        &&& self.next_generation == other.next_generation
        &&& self.registry.capacity() == other.registry.capacity()
    }

    /// The relation between the state before an event, the action chosen and
    /// the state after it.
    pub open spec fn reacts(pre: Reactor, event: Event, action: Action, post: Reactor) -> bool {
        &&& post.same_setup(&pre)
        &&& if event.is_trouble() {
            if event.token.0 == SERVER_TOKEN {
                action == Action::Shutdown && post.registry@ == pre.registry@
            } else {
                &&& post.registry@ == pre.registry@.remove(event.token.0)
                &&& action == if pre.registry@.contains_key(event.token.0) {
                    Action::Closed(event.token)
                } else {
                    Action::Ignore
                }
            }
        } else {
            &&& post.registry@ == pre.registry@
            &&& action == if event.token.0 == SERVER_TOKEN {
                Action::Accept
            } else if pre.registry@.contains_key(event.token.0) {
                Action::Read(event.token)
            } else {
                Action::Ignore
            }
        }
    }

    /// The relation between the states before and after a connection was
    /// accepted, and the identifier it got.
    pub open spec fn accepts(pre: Reactor, r: Result<Token, ProtoError>, post: Reactor) -> bool {
        &&& post.dispatcher == pre.dispatcher
        &&& post.registry.capacity() == pre.registry.capacity()
        &&& match r {
            Ok(token) => {
                &&& pre.next_generation < u64::MAX
                &&& pre.registry@.len() < pre.registry.capacity()
                &&& post.next_generation == pre.next_generation + 1
                &&& !pre.registry@.contains_key(token.0)
                &&& token.0 != SERVER_TOKEN
                &&& post.registry@.dom() == pre.registry@.dom().insert(token.0)
                &&& others_untouched(pre.registry@, post.registry@, token.0)
                &&& post.registry@[token.0].inbound() == Seq::<u8>::empty()
                &&& post.registry@[token.0].outbound() == Seq::<u8>::empty()
                &&& post.registry@[token.0].io.state == Lifecycle::Active
                &&& post.registry@[token.0].io.generation == pre.next_generation
            },
            Err(e) => {
                &&& post.next_generation == pre.next_generation
                &&& post.registry@ == pre.registry@
                &&& e == if pre.next_generation == u64::MAX {
                    ProtoError::GenerationsExhausted
                } else {
                    ProtoError::RegistryFull
                }
                &&& pre.next_generation == u64::MAX || pre.registry@.len()
                    == pre.registry.capacity()
            },
        }
    }

    /// The relation between the states before and after one read result on
    /// the connection under `token`, and whether reading goes on.
    pub open spec fn reads(
        pre: Reactor,
        token: Token,
        outcome: ReadOutcome,
        flow: Flow,
        post: Reactor,
    ) -> bool {
        &&& post.same_setup(&pre)
        &&& post.registry@.contains_key(token.0) == pre.registry@.contains_key(token.0)
        &&& others_untouched(pre.registry@, post.registry@, token.0)
        &&& if pre.registry@.contains_key(token.0) {
            &&& read_effect(
                pre.dispatcher.service,
                pre.registry@[token.0],
                outcome,
                post.registry@[token.0],
            )
            &&& flow == if reads_on(pre.dispatcher.service, pre.registry@[token.0], outcome) {
                Flow::Continue
            } else {
                Flow::Stop
            }
        } else {
            flow == Flow::Stop
        }
    }

    /// The relation between the states before and after the reads on the
    /// connection under `token` are over: a connection marked for closing
    /// leaves the registry and is handed out, any other stays.
    pub open spec fn finishes(pre: Reactor, token: Token, r: Option<Framed>, post: Reactor)
        -> bool {
        &&& post.same_setup(&pre)
        &&& if pre.registry@.contains_key(token.0) && pre.registry@[token.0].io.state
            == Lifecycle::Closing {
            r == Some(pre.registry@[token.0]) && post.registry@ == pre.registry@.remove(token.0)
        } else {
            r.is_none() && post.registry@ == pre.registry@
        }
    }

    /// The relation between the states before and after the next frame of
    /// the connection under `token` was taken up, and what came of it: the
    /// result of the business logic, not yet queued as a reply. A payload
    /// that is no text marks the connection for closing.
    pub open spec fn takes_up(
        pre: Reactor,
        token: Token,
        r: Result<Option<Pending>, ProtoError>,
        post: Reactor,
    ) -> bool {
        let before = pre.registry@[token.0];
        let after = post.registry@[token.0];
        &&& post.same_setup(&pre)
        &&& post.registry@.contains_key(token.0) == pre.registry@.contains_key(token.0)
        &&& others_untouched(pre.registry@, post.registry@, token.0)
        &&& if pre.registry@.contains_key(token.0) {
            &&& after.io.generation == before.io.generation
            &&& after.outbound() == before.outbound()
            &&& match decode_step(before.inbound()) {
                Decoded::NeedMoreBytes => {
                    &&& r == Ok::<Option<Pending>, ProtoError>(None)
                    &&& after.inbound() == before.inbound()
                    &&& after.io.state == before.io.state
                },
                Decoded::Frame { request_id, payload, consumed } => {
                    &&& r matches Ok(Some(pending))
                    &&& pending.token == token
                    &&& pending.generation == before.io.generation
                    &&& pending.request_id == request_id
                    &&& outcome_text(pending.outcome) == pre.dispatcher.service.answer(payload)
                    &&& after.inbound() == before.inbound().skip(consumed as int)
                    &&& after.io.state == before.io.state
                },
                Decoded::Fatal { consumed } => {
                    &&& r == Err::<Option<Pending>, ProtoError>(ProtoError::InvalidString)
                    &&& after.inbound() == before.inbound().skip(consumed as int)
                    &&& after.io.state == Lifecycle::Closing
                },
            }
        } else {
            r == Ok::<Option<Pending>, ProtoError>(None)
        }
    }

    /// A result of the business logic still has its connection: the one
    /// held under its identifier has its number.
    pub open spec fn is_live(&self, done: &Pending) -> bool {
        &&& self.registry@.contains_key(done.token.0)
        &&& self.registry@[done.token.0].io.generation == done.generation
    }

    /// The relation between the states before and after a result of the
    /// business logic came in. If its connection is still there, one frame
    /// with the tag of the request is queued on it; if not, nothing happens.
    pub open spec fn completes(pre: Reactor, done: Pending, r: Completion, post: Reactor)
        -> bool {
        let before = pre.registry@[done.token.0];
        let after = post.registry@[done.token.0];
        &&& post.same_setup(&pre)
        &&& post.registry@.contains_key(done.token.0) == pre.registry@.contains_key(
            done.token.0,
        )
        &&& others_untouched(pre.registry@, post.registry@, done.token.0)
        &&& if pre.is_live(&done) {
            &&& r == Completion::Queued
            &&& after.outbound() == before.outbound() + frame_bytes(
                done.request_id,
                reply_text(outcome_text(done.outcome)),
            )
            &&& after.inbound() == before.inbound()
            &&& after.same_connection(&before)
        } else {
            r == Completion::Stale && post.registry@ == pre.registry@
        }
    }

    /// The relation between the states before and after the bytes to send
    /// were collected from the connection under `token`.
    pub open spec fn flushes(pre: Reactor, token: Token, bytes: Seq<u8>, post: Reactor) -> bool {
        let before = pre.registry@[token.0];
        let after = post.registry@[token.0];
        &&& post.same_setup(&pre)
        &&& post.registry@.contains_key(token.0) == pre.registry@.contains_key(token.0)
        &&& others_untouched(pre.registry@, post.registry@, token.0)
        &&& if pre.registry@.contains_key(token.0) {
            &&& bytes == before.outbound()
            &&& after.outbound() == Seq::<u8>::empty()
            &&& after.inbound() == before.inbound()
            &&& after.same_connection(&before)
        } else {
            bytes == Seq::<u8>::empty()
        }
    }

    /// A reactor with no connection and room for `capacity` of them.
    pub fn new(capacity: usize, service: Service) -> (reactor: Reactor)
        requires
            capacity <= MAX_CAPACITY,
        ensures
            reactor.wf(),
            reactor.registry@ == Map::<usize, Framed>::empty(),
            reactor.registry.capacity() == capacity,
            reactor.dispatcher.service == service,
            reactor.next_generation == 0,
    {
        Reactor {
            registry: Registry::with_capacity(capacity),
            proto: LineProto,
            dispatcher: Dispatcher::new(service),
            next_generation: 0,
        }
    }

    /// Decides what follows an event.
    ///
    /// Trouble on the listening socket ends the server; trouble on a
    /// connection removes it. A readable listening socket is to be accepted
    /// from, a readable connection to be read from. An event for an
    /// identifier under which nothing is held is ignored.
    pub fn handle_event(&mut self, event: Event) -> (action: Action)
        requires
            old(self).wf(),
        ensures
            final(self).wf(),
            Reactor::reacts(*old(self), event, action, *final(self)),
    {
        if event.troubled() {
            if event.token.0 == SERVER_TOKEN {
                Action::Shutdown
            } else {
                match self.registry.remove(event.token) {
                    Some(_) => Action::Closed(event.token),
                    None => Action::Ignore,
                }
            }
        } else if event.token.0 == SERVER_TOKEN {
            Action::Accept
        } else if self.registry.contains(event.token) {
            Action::Read(event.token)
        } else {
            Action::Ignore
        }
    }

    /// Takes in a connection that was just accepted: it gets a fresh
    /// transport, the next number, and an identifier that no open
    /// connection has. Fails, and changes nothing, when the registry is full
    /// or the numbers are used up.
    pub fn accepted(&mut self) -> (r: Result<Token, ProtoError>)
        requires
            old(self).wf(),
        ensures
            final(self).wf(),
            Reactor::accepts(*old(self), r, *final(self)),
            old(self).next_generation < u64::MAX && old(self).registry@.len() < old(
                self,
            ).registry.capacity() ==> r is Ok,
    {
        if self.next_generation == u64::MAX {
            return Err(ProtoError::GenerationsExhausted);
        }
        if self.registry.len() >= self.registry.room() {
            return Err(ProtoError::RegistryFull);
        }
        let transport = match self.proto.bind_transport(Connection::new(self.next_generation)) {
            Ok(transport) => transport,
            Err(e) => {
                return Err(e);
            },
        };
        match self.registry.insert(transport) {
            Ok(token) => {
                assert(self.registry@.contains_key(token.0));
                assert(token.0 < MAX_CAPACITY < SERVER_TOKEN);
                self.next_generation = self.next_generation + 1;
                Ok(token)
            },
            Err(_) => Err(ProtoError::RegistryFull),
        }
    }

    /// Takes in the result of one read from the connection under `token`.
    ///
    /// Bytes are handed to the transport and every whole frame that has
    /// arrived is answered at once. A payload that is no text, a read of no
    /// bytes and a failure mark the connection for closing. Reading goes on
    /// only after bytes that were all in order. No other connection is
    /// touched.
    pub fn received(&mut self, token: Token, outcome: ReadOutcome) -> (flow: Flow)
        requires
            old(self).wf(),
        ensures
            final(self).wf(),
            Reactor::reads(*old(self), token, outcome, flow, *final(self)),
    {
        let dispatcher = self.dispatcher;
        match self.registry.get_mut(token) {
            None => Flow::Stop,
            Some(conn) => {
                match outcome {
                    ReadOutcome::WouldBlock => Flow::Stop,
                    ReadOutcome::Failed => {
                        conn.io.mark_closing();
                        Flow::Stop
                    },
                    ReadOutcome::Bytes(bytes) => {
                        if bytes.len() == 0 {
                            conn.io.mark_closing();
                            Flow::Stop
                        } else {
                            conn.fill(bytes.as_slice());
                            match dispatcher.serve(conn, token) {
                                Ok(_) => Flow::Continue,
                                Err(_) => {
                                    conn.io.mark_closing();
                                    Flow::Stop
                                },
                            }
                        }
                    },
                }
            },
        }
    }

    /// Takes up the next whole frame that has arrived on the connection
    /// under `token` and runs the business logic on it. The result is handed
    /// out, to be given to `complete` whenever the caller sees fit: results
    /// may come back in any order.
    pub fn next_request(&mut self, token: Token) -> (r: Result<Option<Pending>, ProtoError>)
        requires
            old(self).wf(),
        ensures
            final(self).wf(),
            Reactor::takes_up(*old(self), token, r, *final(self)),
    {
        let dispatcher = self.dispatcher;
        match self.registry.get_mut(token) {
            None => Ok(None),
            Some(conn) => {
                match conn.poll() {
                    Ok(Some(frame)) => Ok(
                        Some(dispatcher.dispatch(token, conn.io.generation, frame)),
                    ),
                    Ok(None) => Ok(None),
                    Err(e) => {
                        conn.io.mark_closing();
                        Err(e)
                    },
                }
            },
        }
    }

    /// Takes in a result of the business logic and queues the reply on the
    /// connection the request came from, under the tag of the request. A
    /// result whose connection is gone, or whose identifier has gone to a
    /// later connection, is dropped.
    pub fn complete(&mut self, done: Pending) -> (r: Completion)
        requires
            old(self).wf(),
        ensures
            final(self).wf(),
            Reactor::completes(*old(self), done, r, *final(self)),
    {
        let dispatcher = self.dispatcher;
        let live = match self.registry.get(done.token) {
            Some(conn) => conn.io.generation == done.generation,
            None => false,
        };
        if !live {
            return Completion::Stale;
        }
        match self.registry.get_mut(done.token) {
            Some(conn) => {
                dispatcher.respond(conn, done.request_id, done.outcome);
                Completion::Queued
            },
            None => Completion::Stale,
        }
    }

    /// Collects the bytes that wait to be sent on the connection under
    /// `token`; none if no connection is held under it.
    pub fn take_output(&mut self, token: Token) -> (bytes: Vec<u8>)
        requires
            old(self).wf(),
        ensures
            final(self).wf(),
            Reactor::flushes(*old(self), token, bytes@, *final(self)),
    {
        match self.registry.get_mut(token) {
            Some(conn) => conn.take_outbound(),
            None => Vec::new(),
        }
    }

    /// Ends the reading on the connection under `token`: if it was marked
    /// for closing it is taken out of the registry and handed to the caller,
    /// who forgets its socket.
    pub fn finish(&mut self, token: Token) -> (r: Option<Framed>)
        requires
            old(self).wf(),
        ensures
            final(self).wf(),
            Reactor::finishes(*old(self), token, r, *final(self)),
    {
        let closing = match self.registry.get(token) {
            Some(conn) => conn.io.is_closing(),
            None => false,
        };
        if closing {
            self.registry.remove(token)
        } else {
            None
        }
    }
}

/// A connection that receives a frame whose payload is no text is closed
/// and leaves the registry, and no other connection notices: each is held
/// or not as before, and holds exactly what it held.
pub proof fn lemma_bad_payload_closes_only_its_connection(
    pre: Reactor,
    token: Token,
    outcome: ReadOutcome,
    flow: Flow,
    mid: Reactor,
    gone: Option<Framed>,
    post: Reactor,
)
    requires
        pre.registry@.contains_key(token.0),
        outcome matches ReadOutcome::Bytes(bytes) && bytes@.len() > 0 && serve_all(
            pre.dispatcher.service,
            pre.registry@[token.0].inbound() + bytes@,
        ).fatal,
        Reactor::reads(pre, token, outcome, flow, mid),
        Reactor::finishes(mid, token, gone, post),
    ensures
        flow == Flow::Stop,
        gone is Some,
        !post.registry@.contains_key(token.0),
        forall|other: usize|
            #![trigger pre.registry@.contains_key(other)]
            #![trigger post.registry@.contains_key(other)]
            other != token.0 ==> (post.registry@.contains_key(other) == pre.registry@.contains_key(
                other,
            )) && (pre.registry@.contains_key(other) ==> post.registry@[other]
                == pre.registry@[other]),
{
    assert forall|other: usize| other != token.0 implies (post.registry@.contains_key(other)
        == pre.registry@.contains_key(other)) && (pre.registry@.contains_key(other)
        ==> post.registry@[other] == pre.registry@[other]) by {
        assert(mid.registry@.contains_key(other) == pre.registry@.contains_key(other));
    }
}

/// When a read yields no bytes the peer has closed: the connection leaves
/// the registry, and nothing is found under its identifier afterwards.
pub proof fn lemma_end_of_stream_removes(
    pre: Reactor,
    token: Token,
    outcome: ReadOutcome,
    flow: Flow,
    mid: Reactor,
    gone: Option<Framed>,
    post: Reactor,
)
    requires
        pre.registry@.contains_key(token.0),
        outcome matches ReadOutcome::Bytes(bytes) && bytes@.len() == 0,
        Reactor::reads(pre, token, outcome, flow, mid),
        Reactor::finishes(mid, token, gone, post),
    ensures
        flow == Flow::Stop,
        gone is Some,
        !post.registry@.contains_key(token.0),
        others_untouched(pre.registry@, post.registry@, token.0),
{
    assert forall|other: usize| other != token.0 implies (post.registry@.contains_key(other)
        == pre.registry@.contains_key(other)) && (pre.registry@.contains_key(other)
        ==> post.registry@[other] == pre.registry@[other]) by {
        assert(mid.registry@.contains_key(other) == pre.registry@.contains_key(other));
    }
}

/// An identifier goes to a new connection only when no connection holds it:
/// as long as a connection is in the registry, no accepted connection gets
/// its identifier, and every connection held before is held unchanged after.
pub proof fn lemma_identifier_given_once(
    pre: Reactor,
    token: Token,
    r: Result<Token, ProtoError>,
    post: Reactor,
)
    requires
        pre.registry@.contains_key(token.0),
        Reactor::accepts(pre, r, post),
    ensures
        r != Ok::<Token, ProtoError>(token),
        post.registry@.contains_key(token.0),
        post.registry@[token.0] == pre.registry@[token.0],
{
}

/// Results that come back in another order than their requests arrived keep
/// their tags: each is queued as one frame with the tag of its own request
/// and the payload made from its own result, in the order of coming back.
pub proof fn lemma_completion_keeps_tags(
    pre: Reactor,
    later: Pending,
    earlier: Pending,
    mid: Reactor,
    post: Reactor,
)
    requires
        pre.is_live(&later),
        pre.is_live(&earlier),
        later.token == earlier.token,
        Reactor::completes(pre, later, Completion::Queued, mid),
        Reactor::completes(mid, earlier, Completion::Queued, post),
    ensures
        post.registry@[later.token.0].outbound() == pre.registry@[later.token.0].outbound()
            + frame_bytes(later.request_id, reply_text(outcome_text(later.outcome)))
            + frame_bytes(earlier.request_id, reply_text(outcome_text(earlier.outcome))),
{
}

} // verus!
