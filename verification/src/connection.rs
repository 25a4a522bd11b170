//! What the router does with one connection, step by step.
//!
//! The router itself neither reads nor writes. It is told what happened on a
//! connection, and answers with what is to be done next.

use crate::route::{
    first_accepting, lemma_first_accepting, Configuration, IncomingHttpRequest,
    OutgoingHttpRequest,
};
use vstd::prelude::*;

verus! {

/// The reply to a request that no route accepts.
pub const NOT_FOUND: &'static str = "{\"status\":404,\"body\":\"\"}\n";

/// The reply on a connection whose request could not be read, decoded or
/// forwarded.
pub const FALLBACK: &'static str = "{}";

/// Where the handling of a connection stands.
#[derive(PartialEq, Eq, Structural, Clone, Copy, Debug)]
pub enum ConnectionState {
    /// Accepted by nobody yet.
    Idle,
    /// The request's payload is being read.
    Reading,
    /// The payload is being decoded.
    Decoding,
    /// The request is with a backend.
    Dispatching,
    /// A reply is being written.
    Writing,
    /// The fallback reply is being written.
    ErrorWriting,
    /// Nothing more is to be done.
    Closed,
}

/// What happened on a connection.
#[derive(Debug)]
pub enum Event {
    /// The connection was accepted.
    Accepted,
    /// The peer ended its input; this is all of it.
    PayloadRead(String),
    /// The payload was decoded to this request.
    Decoded(IncomingHttpRequest),
    /// The backend ended its reply; this is all of it.
    BackendReplied(String),
    /// Reading, decoding or forwarding failed.
    Failed,
    /// The reply was written.
    Written,
}

/// What is to be done next on a connection.
#[derive(Debug)]
pub enum Action {
    /// Read the payload up to the end of the peer's input.
    Read,
    /// Decode this text as a request.
    Decode(String),
    /// Send this request to the backend at this address, and read its reply.
    Forward { address: String, request: OutgoingHttpRequest },
    /// Write this reply to the peer.
    Write(String),
    /// Close the connection.
    Close,
}

/// `text` without the white space at its two ends, as `str::trim` of the
/// standard library gives it.
pub uninterp spec fn trimmed(text: Seq<char>) -> Seq<char>;

/// Calls `str::trim`. Nothing is proved of it: its result is only given the
/// name [`trimmed`], which rests on the result being a function of the text
/// alone (white space is what Unicode defines as such).
#[verifier::external_body]
fn trim(text: &str) -> (inner: &str)
    ensures
        inner@ == trimmed(text@),
{
    text.trim()
}

/// Whether `event` is one that can happen in `state`.
pub open spec fn expects(state: ConnectionState, event: Event) -> bool {
    match (state, event) {
        (ConnectionState::Idle, Event::Accepted) => true,
        (ConnectionState::Reading, Event::PayloadRead(_)) => true,
        (ConnectionState::Decoding, Event::Decoded(_)) => true,
        (ConnectionState::Dispatching, Event::BackendReplied(_)) => true,
        (ConnectionState::Reading, Event::Failed) => true,
        (ConnectionState::Decoding, Event::Failed) => true,
        (ConnectionState::Dispatching, Event::Failed) => true,
        (ConnectionState::Writing, Event::Written) => true,
        (ConnectionState::ErrorWriting, Event::Written) => true,
        _ => false,
    }
}

/// Whether, with the route table `table`, the state `next` and the action
/// `action` are what follows `event` in `state`. Nothing follows an event that
/// cannot happen in `state`.
///
/// A decoded request goes to the first route that accepts it, with the
/// parameters that this route captures; one that no route accepts is answered
/// with [`NOT_FOUND`]. A backend's reply is passed on as it is. Any failure is
/// answered with [`FALLBACK`].
pub open spec fn follows(
    table: Configuration,
    state: ConnectionState,
    event: Event,
    next: ConnectionState,
    action: Action,
) -> bool {
    expects(state, event) && match event {
        Event::Accepted => next == ConnectionState::Reading && action is Read,
        Event::PayloadRead(payload) => {
            &&& next == ConnectionState::Decoding
            &&& action matches Action::Decode(text)
            &&& text@ == trimmed(payload@)
        },
        Event::Decoded(request) => {
            let at = first_accepting(table.routes@, request);
            if at < table.routes.len() {
                &&& next == ConnectionState::Dispatching
                &&& action matches Action::Forward { address, request: outgoing }
                &&& address@ == table.routes[at as int].process@
                &&& table.routes[at as int].forwards(request, outgoing)
            } else {
                &&& next == ConnectionState::Writing
                &&& action matches Action::Write(reply)
                &&& reply@ == NOT_FOUND@
            }
        },
        Event::BackendReplied(answer) => {
            &&& next == ConnectionState::Writing
            &&& action matches Action::Write(reply)
            &&& reply@ == answer@
        },
        Event::Failed => {
            &&& next == ConnectionState::ErrorWriting
            &&& action matches Action::Write(reply)
            &&& reply@ == FALLBACK@
        },
        Event::Written => next == ConnectionState::Closed && action is Close,
    }
}

/// Takes one step on a connection: says what follows `event` in `state`.
/// An event that cannot happen in `state` is refused with `None`.
pub fn step(table: &Configuration, state: ConnectionState, event: Event) -> (taken: Option<
    (ConnectionState, Action),
>)
    ensures
        taken is Some <==> expects(state, event),
        taken matches Some((next, action)) ==> follows(*table, state, event, next, action),
{
    match (state, event) {
        (ConnectionState::Idle, Event::Accepted) => Some((ConnectionState::Reading, Action::Read)),
        (ConnectionState::Reading, Event::PayloadRead(payload)) => {
            let text: String = trim(payload.as_str()).to_owned();
            Some((ConnectionState::Decoding, Action::Decode(text)))
        },
        (ConnectionState::Decoding, Event::Decoded(request)) => {
            match table.find(&request) {
                Some((at, outgoing)) => {
                    let address: String = table.routes[at].process.clone();
                    Some(
                        (
                            ConnectionState::Dispatching,
                            Action::Forward { address, request: outgoing },
                        ),
                    )
                },
                None => Some((ConnectionState::Writing, Action::Write(NOT_FOUND.to_owned()))),
            }
        },
        (ConnectionState::Dispatching, Event::BackendReplied(answer)) => Some(
            (ConnectionState::Writing, Action::Write(answer)),
        ),
        (ConnectionState::Reading, Event::Failed)
        | (ConnectionState::Decoding, Event::Failed)
        | (ConnectionState::Dispatching, Event::Failed) => Some(
            (ConnectionState::ErrorWriting, Action::Write(FALLBACK.to_owned())),
        ),
        (ConnectionState::Writing, Event::Written)
        | (ConnectionState::ErrorWriting, Event::Written) => Some(
            (ConnectionState::Closed, Action::Close),
        ),
        _ => None,
    }
}

/// A request that no route of the table accepts is answered with
/// [`NOT_FOUND`], and with nothing else.
pub proof fn law_unrouted_request_is_not_found(
    table: Configuration,
    request: IncomingHttpRequest,
    next: ConnectionState,
    action: Action,
)
    requires
        forall|k: int| 0 <= k < table.routes.len() ==> !(#[trigger] table.routes[k]).accepts(request),
        follows(table, ConnectionState::Decoding, Event::Decoded(request), next, action),
    ensures
        next == ConnectionState::Writing,
        action matches Action::Write(reply) && reply@ == NOT_FOUND@,
{
    lemma_first_accepting(table.routes@, request, table.routes.len() as int);
}

/// A request that some route accepts is forwarded, to the backend of the
/// first route that accepts it.
pub proof fn law_routed_request_is_forwarded(
    table: Configuration,
    request: IncomingHttpRequest,
    at: int,
    next: ConnectionState,
    action: Action,
)
    requires
        0 <= at < table.routes.len(),
        table.routes[at].accepts(request),
        forall|k: int| 0 <= k < at ==> !(#[trigger] table.routes[k]).accepts(request),
        follows(table, ConnectionState::Decoding, Event::Decoded(request), next, action),
    ensures
        next == ConnectionState::Dispatching,
        action matches Action::Forward { address, request: outgoing } && address@
            == table.routes[at].process@ && table.routes[at].forwards(request, outgoing),
{
    lemma_first_accepting(table.routes@, request, at);
}

} // verus!
