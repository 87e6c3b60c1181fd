//! The session state machine.
//!
//! One session moves `Unauthenticated -> HelloPending -> Active`. A client
//! hello issues the hello bridge call and suspends the session; the bridge
//! outcome either activates the session with a status-200 server hello or
//! signals the transport to terminate. While active, register and
//! unregister are answered directly, acknowledgements are accepted
//! silently — an ack naming an unknown channel included — and
//! server-initiated notifications may be emitted at any time.

use vstd::prelude::*;

use crate::call::{CallOutcome, CallOutcomeV};
use crate::codec::{Request, RequestV};
use crate::protocol::{
    ClientMessage, ClientMessageV, Notification, ServerMessage, ServerMessageV,
};

verus! {

#[derive(Debug, Clone, Copy, PartialEq, Eq, Structural)]
pub enum SessionState {
    Unauthenticated,
    HelloPending,
    Active,
}

/// One logical client connection.
#[derive(Debug, Clone, PartialEq, Eq)]
pub struct Session {
    pub state: SessionState,
    /// Remembered from the client hello, echoed in the server hello.
    pub use_webpush: Option<bool>,
}

/// What the session asks its caller to do with a client message.
#[derive(Debug, Clone, PartialEq, Eq)]
pub enum SessionAction {
    /// Dispatch this request over the bridge; the session is now suspended
    /// on its outcome.
    IssueHello(Request),
    /// Send this message back to the client.
    Reply(ServerMessage),
    /// Accepted, nothing to send.
    NoReply,
    /// Protocol violation: the transport terminates the connection.
    Terminate,
}

#[verifier::ext_equal]
pub enum SessionActionV {
    IssueHello(RequestV),
    Reply(ServerMessageV),
    NoReply,
    Terminate,
}

impl View for SessionAction {
    type V = SessionActionV;

    open spec fn view(&self) -> SessionActionV {
        match self {
            SessionAction::IssueHello(r) => SessionActionV::IssueHello(r@),
            SessionAction::Reply(m) => SessionActionV::Reply(m@),
            SessionAction::NoReply => SessionActionV::NoReply,
            SessionAction::Terminate => SessionActionV::Terminate,
        }
    }
}

/// What the session asks of its caller once the hello call resolves.
#[derive(Debug, Clone, PartialEq, Eq)]
pub enum HelloAction {
    /// Send this server hello; its status is 200 and the session is active.
    Emit(ServerMessage),
    /// No usable identity came back: the session stays non-active and the
    /// transport terminates the connection with this status.
    Terminate(u32),
}

#[verifier::ext_equal]
pub enum HelloActionV {
    Emit(ServerMessageV),
    Terminate(u32),
}

impl View for HelloAction {
    type V = HelloActionV;

    open spec fn view(&self) -> HelloActionV {
        match self {
            HelloAction::Emit(m) => HelloActionV::Emit(m@),
            HelloAction::Terminate(s) => HelloActionV::Terminate(*s),
        }
    }
}

// ---------------------------------------------------------------------------
// Transition relation
// ---------------------------------------------------------------------------

/// The step a client message causes: the session after it, and the action
/// owed to the caller. `connected_at` is the connection time in
/// milliseconds; `endpoint` is the push endpoint the storage collaborator
/// assigned for a register.
pub open spec fn step(s: Session, m: ClientMessageV, connected_at: i64, endpoint: Seq<char>) -> (
    Session,
    SessionActionV,
) {
    match (s.state, m) {
        (
            SessionState::Unauthenticated,
            ClientMessageV::Hello { uaid, channel_ids, use_webpush },
        ) => (
            Session { state: SessionState::HelloPending, use_webpush },
            SessionActionV::IssueHello(RequestV::Hello { connected_at, uaid }),
        ),
        (SessionState::Active, ClientMessageV::Register { channel_id }) => (
            s,
            SessionActionV::Reply(
                ServerMessageV::Register { channel_id, status: 200, push_endpoint: endpoint },
            ),
        ),
        (SessionState::Active, ClientMessageV::Unregister { channel_id }) => (
            s,
            SessionActionV::Reply(ServerMessageV::Unregister { channel_id, status: 200 }),
        ),
        (SessionState::Active, ClientMessageV::Ack { updates }) => (s, SessionActionV::NoReply),
        _ => (s, SessionActionV::Terminate),
    }
}

/// The step a resolved hello call causes while the session is suspended in
/// `HelloPending`.
pub open spec fn step_hello(s: Session, o: CallOutcomeV) -> (Session, HelloActionV) {
    match o {
        CallOutcomeV::Response(h) => match h.uaid {
            Some(u) => (
                Session { state: SessionState::Active, ..s },
                HelloActionV::Emit(
                    ServerMessageV::Hello { uaid: u, status: 200, use_webpush: s.use_webpush },
                ),
            ),
            None => (
                Session { state: SessionState::Unauthenticated, ..s },
                HelloActionV::Terminate(500),
            ),
        },
        CallOutcomeV::ApplicationError(m) => (
            Session { state: SessionState::Unauthenticated, ..s },
            HelloActionV::Terminate(503),
        ),
        CallOutcomeV::DeserializationError => (
            Session { state: SessionState::Unauthenticated, ..s },
            HelloActionV::Terminate(500),
        ),
        CallOutcomeV::Cancelled => (
            Session { state: SessionState::Unauthenticated, ..s },
            HelloActionV::Terminate(500),
        ),
    }
}

// ---------------------------------------------------------------------------
// Executable state machine
// ---------------------------------------------------------------------------

impl Session {
    /// A fresh, unauthenticated session.
    pub fn new() -> (s: Session)
        ensures
            s == (Session { state: SessionState::Unauthenticated, use_webpush: None }),
    {
        Session { state: SessionState::Unauthenticated, use_webpush: None }
    }

    /// Consumes one client message. `connected_at_ms` is the connection
    /// time in milliseconds since epoch; `push_endpoint` is the endpoint
    /// the storage collaborator assigned, used only for a register.
    pub fn on_client_message(
        &mut self,
        m: ClientMessage,
        connected_at_ms: i64,
        push_endpoint: Vec<char>,
    ) -> (r: SessionAction)
        ensures
            *final(self) == step(*old(self), m@, connected_at_ms, push_endpoint@).0,
            r@ == step(*old(self), m@, connected_at_ms, push_endpoint@).1,
    {
        match (self.state, m) {
            (SessionState::Unauthenticated, ClientMessage::Hello { uaid, channel_ids, use_webpush }) => {
                self.state = SessionState::HelloPending;
                self.use_webpush = use_webpush;
                SessionAction::IssueHello(Request::Hello { connected_at: connected_at_ms, uaid })
            },
            (SessionState::Active, ClientMessage::Register { channel_id }) => {
                SessionAction::Reply(
                    ServerMessage::Register { channel_id, status: 200, push_endpoint },
                )
            },
            (SessionState::Active, ClientMessage::Unregister { channel_id }) => {
                SessionAction::Reply(ServerMessage::Unregister { channel_id, status: 200 })
            },
            (SessionState::Active, ClientMessage::Ack { updates }) => SessionAction::NoReply,
            _ => SessionAction::Terminate,
        }
    }

    /// Consumes the outcome of the hello bridge call.
    pub fn on_hello_outcome(&mut self, o: CallOutcome) -> (r: HelloAction)
        requires
            old(self).state == SessionState::HelloPending,
        ensures
            *final(self) == step_hello(*old(self), o@).0,
            r@ == step_hello(*old(self), o@).1,
    {
        match o {
            CallOutcome::Response(h) => match h.uaid {
                Some(u) => {
                    self.state = SessionState::Active;
                    HelloAction::Emit(
                        ServerMessage::Hello { uaid: u, status: 200, use_webpush: self.use_webpush },
                    )
                },
                None => {
                    self.state = SessionState::Unauthenticated;
                    HelloAction::Terminate(500)
                },
            },
            CallOutcome::ApplicationError(m) => {
                self.state = SessionState::Unauthenticated;
                HelloAction::Terminate(503)
            },
            CallOutcome::DeserializationError => {
                self.state = SessionState::Unauthenticated;
                HelloAction::Terminate(500)
            },
            CallOutcome::Cancelled => {
                self.state = SessionState::Unauthenticated;
                HelloAction::Terminate(500)
            },
        }
    }

    /// An unsolicited server-initiated notification, legal at any point
    /// while the session is active.
    pub fn notify(&self, n: Notification) -> (r: Option<ServerMessage>)
        ensures
            self.state == SessionState::Active ==> r == Some(ServerMessage::Notification(n)),
            self.state != SessionState::Active ==> r is None,
    {
        match self.state {
            SessionState::Active => Some(ServerMessage::Notification(n)),
            _ => None,
        }
    }
}

// ---------------------------------------------------------------------------
// Laws of the state machine
// ---------------------------------------------------------------------------

/// A server hello with status 200 — and nothing else — moves a suspended
/// session to `Active`.
pub proof fn lemma_hello_status_gates_active(s: Session, o: CallOutcomeV)
    requires
        s.state == SessionState::HelloPending,
    ensures
        step_hello(s, o).0.state == SessionState::Active <==> (step_hello(s, o).1 matches
            HelloActionV::Emit(ServerMessageV::Hello { uaid, status, use_webpush }) && status
            == 200),
{
}

/// Register is idempotent at the protocol level: a second register for the
/// same channel is answered independently with its own fresh endpoint, and
/// is never rejected.
pub proof fn lemma_register_idempotent(
    s: Session,
    channel: Seq<char>,
    t1: i64,
    t2: i64,
    e1: Seq<char>,
    e2: Seq<char>,
)
    requires
        s.state == SessionState::Active,
    ensures
        step(s, ClientMessageV::Register { channel_id: channel }, t1, e1) == (
            s,
            SessionActionV::Reply(
                ServerMessageV::Register { channel_id: channel, status: 200, push_endpoint: e1 },
            ),
        ),
        step(
            step(s, ClientMessageV::Register { channel_id: channel }, t1, e1).0,
            ClientMessageV::Register { channel_id: channel },
            t2,
            e2,
        ) == (
            s,
            SessionActionV::Reply(
                ServerMessageV::Register { channel_id: channel, status: 200, push_endpoint: e2 },
            ),
        ),
{
}

/// An acknowledgement is accepted and ignored while active — one naming an
/// unknown channel included: the session neither changes nor replies.
pub proof fn lemma_ack_accepted(s: Session, updates: Seq<crate::protocol::ClientAckV>, t: i64, e: Seq<char>)
    requires
        s.state == SessionState::Active,
    ensures
        step(s, ClientMessageV::Ack { updates }, t, e) == (s, SessionActionV::NoReply),
{
}

} // verus!
