//! The correlation bridge and the boundary guard.
//!
//! `Server::initiate` encodes a typed request, builds the call together with
//! its cross-boundary handle, and hands the handle outward; the external
//! side reads the encoded input through the guard, performs exactly one
//! completion, and the initiator then resolves the handle into an outcome.
//! A call destroyed before completion resolves to `Cancelled`.
//!
//! The guard contains the one internal fault an operation invoked across the
//! boundary can run into — completing a call whose single-use completion was
//! already consumed. The first such fault poisons the handle: every later
//! guarded operation reports the same failure immediately, without touching
//! the stored result.

use vstd::prelude::*;

use crate::codec::{
    decode_response, decode_response_spec, encode_request, encode_request_spec, Decoded, DecodedV,
    Request, RequestV,
};
use crate::protocol::{HelloResponse, HelloResponseV, Id};

verus! {

/// Why a call could not be issued: the far end of the outbound dispatch
/// link is gone. Fatal, never retried.
#[derive(Debug, Clone, Copy, PartialEq, Eq, Structural)]
pub enum CallError {
    LinkGone,
}

/// The failure class a poisoned handle keeps reporting.
#[derive(Debug, Clone, Copy, PartialEq, Eq, Structural)]
pub enum BoundaryFault {
    /// The single-use completion had already been consumed.
    CompletionConsumed,
}

/// What the initiator's pending result finally takes.
#[derive(Debug, Clone, PartialEq, Eq)]
pub enum CallOutcome {
    /// The external service answered with the expected domain object.
    Response(HelloResponse),
    /// The external service reported `{"error":true,...}`.
    ApplicationError(Vec<char>),
    /// The completion text did not match the expected shape.
    DeserializationError,
    /// The call was destroyed before any completion arrived.
    Cancelled,
}

#[verifier::ext_equal]
pub enum CallOutcomeV {
    Response(HelloResponseV),
    ApplicationError(Seq<char>),
    DeserializationError,
    Cancelled,
}

impl View for CallOutcome {
    type V = CallOutcomeV;

    open spec fn view(&self) -> CallOutcomeV {
        match self {
            CallOutcome::Response(h) => CallOutcomeV::Response(h@),
            CallOutcome::ApplicationError(m) => CallOutcomeV::ApplicationError(m@),
            CallOutcome::DeserializationError => CallOutcomeV::DeserializationError,
            CallOutcome::Cancelled => CallOutcomeV::Cancelled,
        }
    }
}

/// A dispatched call: the encoded request on its way outward.
pub struct PythonCall {
    input: Vec<char>,
}

impl View for PythonCall {
    type V = Seq<char>;

    closed spec fn view(&self) -> Seq<char> {
        self.input@
    }
}

/// The cross-boundary view of a call: read access to the encoded input and
/// one consuming completion, behind the boundary guard.
pub struct AutopushPythonCall {
    call: PythonCall,
    done: Option<Decoded>,
    fault: Option<BoundaryFault>,
}

#[verifier::ext_equal]
pub struct CallHandleV {
    pub input: Seq<char>,
    pub done: Option<DecodedV>,
    pub fault: Option<BoundaryFault>,
}

impl View for AutopushPythonCall {
    type V = CallHandleV;

    closed spec fn view(&self) -> CallHandleV {
        CallHandleV {
            input: self.call@,
            done: match &self.done {
                Some(d) => Some(d@),
                None => None,
            },
            fault: self.fault,
        }
    }
}

/// One completion step on a handle: what the handle becomes and what the
/// operation reports.
pub open spec fn complete_spec(h: CallHandleV, t: Seq<char>) -> (CallHandleV, Result<
    (),
    BoundaryFault,
>) {
    if h.fault is Some {
        (h, Err(h.fault.unwrap()))
    } else if h.done is Some {
        (
            CallHandleV { fault: Some(BoundaryFault::CompletionConsumed), ..h },
            Err(BoundaryFault::CompletionConsumed),
        )
    } else {
        (CallHandleV { done: Some(decode_response_spec(t)), ..h }, Ok(()))
    }
}

/// What a handle resolves to once it comes back to the initiator.
pub open spec fn resolve_spec(h: CallHandleV) -> CallOutcomeV {
    match h.done {
        Some(DecodedV::Response(r)) => CallOutcomeV::Response(r),
        Some(DecodedV::ApplicationError(m)) => CallOutcomeV::ApplicationError(m),
        Some(DecodedV::DeserializationError) => CallOutcomeV::DeserializationError,
        None => CallOutcomeV::Cancelled,
    }
}

impl AutopushPythonCall {
    /// Wraps a dispatched call for the crossing: completion still pending,
    /// no fault caught yet.
    pub fn new(call: PythonCall) -> (h: AutopushPythonCall)
        ensures
            h@ == (CallHandleV { input: call@, done: None, fault: None }),
    {
        AutopushPythonCall { call, done: None, fault: None }
    }

    /// Read access to the encoded input, through the guard.
    pub fn input(&self) -> (r: Result<&Vec<char>, BoundaryFault>)
        ensures
            match self@.fault {
                Some(f) => r == Err::<&Vec<char>, BoundaryFault>(f),
                None => r matches Ok(v) && v@ == self@.input,
            },
    {
        match self.fault {
            Some(f) => Err(f),
            None => Ok(&self.call.input),
        }
    }

    /// The one consuming completion: decodes the output text and stores the
    /// resolution. A second attempt is rejected without altering the first
    /// result, and poisons the handle.
    pub fn complete(&mut self, text: &[char]) -> (r: Result<(), BoundaryFault>)
        ensures
            final(self)@ == complete_spec(old(self)@, text@).0,
            r == complete_spec(old(self)@, text@).1,
    {
        match self.fault {
            Some(f) => Err(f),
            None => {
                if self.done.is_some() {
                    self.fault = Some(BoundaryFault::CompletionConsumed);
                    assert(final(self)@ =~= complete_spec(old(self)@, text@).0);
                    Err(BoundaryFault::CompletionConsumed)
                } else {
                    self.done = Some(decode_response(text));
                    assert(final(self)@ =~= complete_spec(old(self)@, text@).0);
                    Ok(())
                }
            },
        }
    }

    /// Retires the handle on the initiator's side: the stored resolution,
    /// or `Cancelled` if the call was destroyed before completion.
    pub fn resolve(self) -> (r: CallOutcome)
        ensures
            r@ == resolve_spec(self@),
    {
        match self.done {
            Some(Decoded::Response(h)) => CallOutcome::Response(h),
            Some(Decoded::ApplicationError(m)) => CallOutcome::ApplicationError(m),
            Some(Decoded::DeserializationError) => CallOutcome::DeserializationError,
            None => CallOutcome::Cancelled,
        }
    }
}

// ---------------------------------------------------------------------------
// The bridge
// ---------------------------------------------------------------------------

/// Milliseconds since epoch from whole seconds and subsecond nanoseconds,
/// truncating, never rounding.
pub open spec fn connected_at_ms(sec: int, nsec: int) -> int {
    sec * 1000 + nsec / 1000000
}

/// Largest magnitude of whole seconds for which the milliseconds fit.
pub const MAX_CONNECTED_AT_SEC: i64 = 9000000000000000;

/// The session-side end of the outbound dispatch link.
pub struct Server {
    link_gone: bool,
}

impl Server {
    /// Whether the far end of the outbound link is known to be gone.
    pub closed spec fn spec_link_gone(&self) -> bool {
        self.link_gone
    }

    pub fn new() -> (s: Server)
        ensures
            !s.spec_link_gone(),
    {
        Server { link_gone: false }
    }

    /// Records that the cooperating external process has exited. Every call
    /// initiated afterwards fails immediately; nothing resets this.
    pub fn mark_link_gone(&mut self)
        ensures
            final(self).spec_link_gone(),
    {
        self.link_gone = true;
    }

    /// Encodes a request and pairs it with its cross-boundary handle. Fails
    /// fatally, not retried, when the outbound link's far end is gone.
    pub fn initiate(&self, req: &Request) -> (r: Result<AutopushPythonCall, CallError>)
        requires
            req@.wf(),
        ensures
            self.spec_link_gone() ==> r == Err::<AutopushPythonCall, CallError>(
                CallError::LinkGone,
            ),
            !self.spec_link_gone() ==> (r matches Ok(h) && h@ == (CallHandleV {
                input: encode_request_spec(req@),
                done: None,
                fault: None,
            })),
    {
        if self.link_gone {
            return Err(CallError::LinkGone);
        }
        let input = encode_request(req);
        Ok(AutopushPythonCall::new(PythonCall { input }))
    }

    /// Issues the hello call for a connection made at the given time.
    pub fn hello(&self, connected_at_sec: i64, connected_at_nsec: u32, uaid: Option<&Id>) -> (r:
        Result<AutopushPythonCall, CallError>)
        requires
            -MAX_CONNECTED_AT_SEC <= connected_at_sec <= MAX_CONNECTED_AT_SEC,
            connected_at_nsec < 1000000000,
        ensures
            self.spec_link_gone() ==> r == Err::<AutopushPythonCall, CallError>(
                CallError::LinkGone,
            ),
            !self.spec_link_gone() ==> (r matches Ok(h) && h@ == (CallHandleV {
                input: encode_request_spec(
                    RequestV::Hello {
                        connected_at: connected_at_ms(
                            connected_at_sec as int,
                            connected_at_nsec as int,
                        ) as i64,
                        uaid: match uaid {
                            Some(u) => Some(u@),
                            None => None,
                        },
                    },
                ),
                done: None,
                fault: None,
            })),
    {
        let ms: i64 = connected_at_sec * 1000 + (connected_at_nsec / 1000000) as i64;
        let req = Request::Hello {
            connected_at: ms,
            uaid: match uaid {
                Some(u) => Some(u.clone()),
                None => None,
            },
        };
        proof {
            if let Some(u) = uaid {
                use_type_invariant(u);
            }
        }
        self.initiate(&req)
    }
}

// ---------------------------------------------------------------------------
// At-most-once completion
// ---------------------------------------------------------------------------

/// A completion whose text decodes to an application error — the error
/// envelope in either member order — resolves the call to that error; no
/// structural decode of the expected response type takes part.
pub proof fn lemma_error_completion(h: CallHandleV, t: Seq<char>, msg: Seq<char>)
    requires
        h.done is None,
        h.fault is None,
        decode_response_spec(t) == DecodedV::ApplicationError(msg),
    ensures
        complete_spec(h, t).1 is Ok,
        resolve_spec(complete_spec(h, t).0) == CallOutcomeV::ApplicationError(msg),
{
}

/// For any call, the first completion resolves it; a second completion
/// attempt is rejected and does not alter the already-resolved result.
pub proof fn lemma_at_most_once(h: CallHandleV, t1: Seq<char>, t2: Seq<char>)
    requires
        h.done is None,
        h.fault is None,
    ensures
        complete_spec(h, t1).1 is Ok,
        complete_spec(h, t1).0.done == Some(decode_response_spec(t1)),
        complete_spec(complete_spec(h, t1).0, t2).1 is Err,
        complete_spec(complete_spec(h, t1).0, t2).0.done == Some(decode_response_spec(t1)),
{
}

} // verus!
