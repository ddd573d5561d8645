//! Connection interceptor: the state machine one accepted connection runs,
//! from reading the requested target host through both TLS handshakes to
//! relaying, with a `Failed` terminal reachable from every state. The
//! surrounding I/O layer performs each returned action (minting a leaf,
//! dialing, handshaking, forwarding bytes) and reports the outcome as the
//! next event; every decision in between is made here.

use vstd::prelude::*;
use crate::bytes::copy_vec;
use crate::lifecycle::{spec_can_accept, spec_session_end, ProxyState};
use crate::router::{
    route_request, rules_view, spec_route_request, RedirectRule, RouteDecision, RouteModel,
    RuleModel,
};

verus! {

/// Where one session stands: `Accepted → ClientTlsHandshake →
/// UpstreamResolved → UpstreamTlsHandshake → Relaying → Closed`, with
/// `Failed` terminal. `rewritten` records whether any request of the
/// session was redirected (telemetry only; behaviour does not depend on
/// it).
pub enum SessionState {
    Accepted,
    ClientTlsHandshake { domain: Vec<u8> },
    UpstreamResolved { domain: Vec<u8> },
    UpstreamTlsHandshake { domain: Vec<u8> },
    Relaying { domain: Vec<u8>, rewritten: bool },
    Closed,
    Failed,
}

/// Ghost model of a session state.
pub enum StateModel {
    Accepted,
    ClientTlsHandshake { domain: Seq<u8> },
    UpstreamResolved { domain: Seq<u8> },
    UpstreamTlsHandshake { domain: Seq<u8> },
    Relaying { domain: Seq<u8>, rewritten: bool },
    Closed,
    Failed,
}

impl View for SessionState {
    type V = StateModel;

    open spec fn view(&self) -> StateModel {
        match self {
            SessionState::Accepted => StateModel::Accepted,
            SessionState::ClientTlsHandshake { domain } => StateModel::ClientTlsHandshake {
                domain: domain@,
            },
            SessionState::UpstreamResolved { domain } => StateModel::UpstreamResolved {
                domain: domain@,
            },
            SessionState::UpstreamTlsHandshake { domain } => StateModel::UpstreamTlsHandshake {
                domain: domain@,
            },
            SessionState::Relaying { domain, rewritten } => StateModel::Relaying {
                domain: domain@,
                rewritten: *rewritten,
            },
            SessionState::Closed => StateModel::Closed,
            SessionState::Failed => StateModel::Failed,
        }
    }
}

/// What the surrounding I/O layer reports to a session.
pub enum SessionEvent {
    /// The requested target host was read from the inbound connection,
    /// from a connect-style request or from the TLS server name.
    TargetHost { domain: Vec<u8> },
    /// A leaf was minted and the client-side TLS handshake completed.
    ClientHandshakeDone,
    /// The TCP connection to the true upstream is established.
    UpstreamConnected,
    /// The upstream TLS handshake completed, its chain verified.
    UpstreamHandshakeDone,
    /// Decrypted request bytes arrived from the client.
    ClientData { data: Vec<u8> },
    /// Decrypted response bytes arrived from the upstream.
    UpstreamData { data: Vec<u8> },
    /// Either side closed its end of the connection.
    PeerClosed,
    /// Any failure: refused leaf, handshake failure, unreachable upstream,
    /// reset socket.
    Fault,
}

/// Ghost model of a session event.
pub enum EventModel {
    TargetHost { domain: Seq<u8> },
    ClientHandshakeDone,
    UpstreamConnected,
    UpstreamHandshakeDone,
    ClientData { data: Seq<u8> },
    UpstreamData { data: Seq<u8> },
    PeerClosed,
    Fault,
}

impl View for SessionEvent {
    type V = EventModel;

    open spec fn view(&self) -> EventModel {
        match self {
            SessionEvent::TargetHost { domain } => EventModel::TargetHost { domain: domain@ },
            SessionEvent::ClientHandshakeDone => EventModel::ClientHandshakeDone,
            SessionEvent::UpstreamConnected => EventModel::UpstreamConnected,
            SessionEvent::UpstreamHandshakeDone => EventModel::UpstreamHandshakeDone,
            SessionEvent::ClientData { data } => EventModel::ClientData { data: data@ },
            SessionEvent::UpstreamData { data } => EventModel::UpstreamData { data: data@ },
            SessionEvent::PeerClosed => EventModel::PeerClosed,
            SessionEvent::Fault => EventModel::Fault,
        }
    }
}

/// What the surrounding I/O layer must do next for this session.
pub enum SessionAction {
    /// Mint a leaf certificate for the domain and serve the client TLS
    /// handshake with it.
    IssueLeafAndHandshake { domain: Vec<u8> },
    /// Open a TCP connection to the true upstream host on the TLS port.
    DialUpstream { domain: Vec<u8> },
    /// Run the client-side TLS handshake with the upstream, verifying its
    /// certificate chain against standard trust roots.
    HandshakeUpstream,
    /// Forward the routed request bytes to the decision's target.
    Forward { decision: RouteDecision },
    /// Hand response bytes to the client, unchanged.
    Respond { data: Vec<u8> },
    /// Close both ends of the session.
    CloseBoth,
    /// Nothing to do.
    Idle,
}

/// Ghost model of a session action.
pub enum ActionModel {
    IssueLeafAndHandshake { domain: Seq<u8> },
    DialUpstream { domain: Seq<u8> },
    HandshakeUpstream,
    Forward { decision: RouteModel },
    Respond { data: Seq<u8> },
    CloseBoth,
    Idle,
}

impl View for SessionAction {
    type V = ActionModel;

    open spec fn view(&self) -> ActionModel {
        match self {
            SessionAction::IssueLeafAndHandshake { domain } => ActionModel::IssueLeafAndHandshake {
                domain: domain@,
            },
            SessionAction::DialUpstream { domain } => ActionModel::DialUpstream { domain: domain@ },
            SessionAction::HandshakeUpstream => ActionModel::HandshakeUpstream,
            SessionAction::Forward { decision } => ActionModel::Forward { decision: decision@ },
            SessionAction::Respond { data } => ActionModel::Respond { data: data@ },
            SessionAction::CloseBoth => ActionModel::CloseBoth,
            SessionAction::Idle => ActionModel::Idle,
        }
    }
}

/// One step of a session: from the current state and the event just
/// reported, the next state and the action to perform. A step reads
/// nothing but this session's own state, the event and the (read-only)
/// rule set; an event a state does not expect is a protocol violation and
/// fails the session. Closed and Failed are terminal.
pub open spec fn spec_session_step(
    s: StateModel,
    ev: EventModel,
    rules: Seq<RuleModel>,
) -> (StateModel, ActionModel) {
    match (s, ev) {
        (StateModel::Accepted, EventModel::TargetHost { domain }) => (
            StateModel::ClientTlsHandshake { domain },
            ActionModel::IssueLeafAndHandshake { domain },
        ),
        (StateModel::ClientTlsHandshake { domain }, EventModel::ClientHandshakeDone) => (
            StateModel::UpstreamResolved { domain },
            ActionModel::DialUpstream { domain },
        ),
        (StateModel::UpstreamResolved { domain }, EventModel::UpstreamConnected) => (
            StateModel::UpstreamTlsHandshake { domain },
            ActionModel::HandshakeUpstream,
        ),
        (StateModel::UpstreamTlsHandshake { domain }, EventModel::UpstreamHandshakeDone) => (
            StateModel::Relaying { domain, rewritten: false },
            ActionModel::Idle,
        ),
        (StateModel::Relaying { domain, rewritten }, EventModel::ClientData { data }) => {
            let d = spec_route_request(rules, domain, data);
            (
                StateModel::Relaying { domain, rewritten: rewritten || d.redirect },
                ActionModel::Forward { decision: d },
            )
        },
        (StateModel::Relaying { domain, rewritten }, EventModel::UpstreamData { data }) => (
            StateModel::Relaying { domain, rewritten },
            ActionModel::Respond { data },
        ),
        (StateModel::Closed, _) => (StateModel::Closed, ActionModel::Idle),
        (StateModel::Failed, _) => (StateModel::Failed, ActionModel::Idle),
        (_, EventModel::PeerClosed) => (StateModel::Closed, ActionModel::CloseBoth),
        (_, _) => (StateModel::Failed, ActionModel::CloseBoth),
    }
}

/// One step of a session.
pub fn session_step(s: SessionState, ev: SessionEvent, rules: &Vec<RedirectRule>) -> (r: (
    SessionState,
    SessionAction,
))
    ensures
        (r.0@, r.1@) == spec_session_step(s@, ev@, rules_view(rules@)),
{
    match (s, ev) {
        (SessionState::Accepted, SessionEvent::TargetHost { domain }) => {
            let d2 = copy_vec(&domain);
            (
                SessionState::ClientTlsHandshake { domain },
                SessionAction::IssueLeafAndHandshake { domain: d2 },
            )
        },
        (SessionState::ClientTlsHandshake { domain }, SessionEvent::ClientHandshakeDone) => {
            let d2 = copy_vec(&domain);
            (
                SessionState::UpstreamResolved { domain },
                SessionAction::DialUpstream { domain: d2 },
            )
        },
        (SessionState::UpstreamResolved { domain }, SessionEvent::UpstreamConnected) => (
            SessionState::UpstreamTlsHandshake { domain },
            SessionAction::HandshakeUpstream,
        ),
        (SessionState::UpstreamTlsHandshake { domain }, SessionEvent::UpstreamHandshakeDone) => (
            SessionState::Relaying { domain, rewritten: false },
            SessionAction::Idle,
        ),
        (SessionState::Relaying { domain, rewritten }, SessionEvent::ClientData { data }) => {
            let d = route_request(rules, &domain, &data);
            let redirected = d.redirect;
            (
                SessionState::Relaying { domain, rewritten: rewritten || redirected },
                SessionAction::Forward { decision: d },
            )
        },
        (SessionState::Relaying { domain, rewritten }, SessionEvent::UpstreamData { data }) => (
            SessionState::Relaying { domain, rewritten },
            SessionAction::Respond { data },
        ),
        (SessionState::Closed, _) => (SessionState::Closed, SessionAction::Idle),
        (SessionState::Failed, _) => (SessionState::Failed, SessionAction::Idle),
        (_, SessionEvent::PeerClosed) => (SessionState::Closed, SessionAction::CloseBoth),
        (_, _) => (SessionState::Failed, SessionAction::CloseBoth),
    }
}

/// Independent session isolation: a step is a function of the session's
/// own state and event alone — `spec_session_step` takes nothing of any
/// other session — so one session's handshake failure cannot change what
/// another session does. And when the failed session is reaped, the
/// listener is still accepting: ending a session preserves the listening
/// flag, and frees a slot, so a concurrent second connection is served.
pub proof fn lemma_session_isolation(
    p: ProxyState,
    s: StateModel,
    ev: EventModel,
    rules: Seq<RuleModel>,
)
    requires
        p.listening,
        p.active > 0,
    ensures
        spec_session_step(s, ev, rules).0 is Failed ==> spec_session_end(p).listening
            && spec_can_accept(spec_session_end(p)),
{
}

} // verus!
