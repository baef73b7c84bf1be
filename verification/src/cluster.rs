//! The client side of a cluster tunnel.
//!
//! When a domain has no agent on this node, the tunnel is relayed to the node
//! that owns the domain: look the owner up in the alias directory, connect to
//! it, open a stream, send the handshake request, read the answer, and on
//! success splice the two connections until either side is done. Each step is
//! tried once; whatever fails ends the attempt.
//!
//! The answer is one byte at the head of the stream, and the read that brings
//! it may bring more: bytes that the remote side has sent for the tunnel
//! already. They are handed out with the relay, which passes them on before
//! anything else.
//!
//! The machine below takes these decisions and leaves the network to its
//! driver. The driver performs the [`ClusterAction`] it is given and reports
//! the outcome as a [`ClusterEvent`], until the action is
//! [`ClusterAction::Release`].

use crate::identity::{home_id_from_domain, spec_home_id};
use crate::protocol::{
    behind_response,
    spec_decode_response,
    spec_encode_request,
    ClusterTunnelRequest,
    ClusterTunnelResponse,
    DecodeError,
    MAX_RESPONSE_FRAME,
    RESPONSE_FRAME_LEN,
};
use vstd::prelude::*;
use vstd::slice::{slice_subrange, slice_to_vec};

verus! {

/// The port on which every node of the cluster accepts cluster tunnels.
pub const CLUSTER_PORT: u16 = 443;

/// The server name presented when connecting to another node. It is the same
/// for every node and every domain.
pub const CLUSTER_SERVER_NAME: &'static str = "cluster";

/// One of the two directions in which a relay copies bytes.
#[derive(Clone, Copy, Debug, PartialEq, Eq, Structural)]
pub enum Direction {
    /// From the proxy connection to the remote node.
    ProxyToAgent,
    /// From the remote node to the proxy connection.
    AgentToProxy,
}

/// How a relay ended: the direction that finished first, and whether it
/// finished at the end of its stream or with an I/O error.
#[derive(Clone, Copy, Debug, PartialEq, Eq, Structural)]
pub struct RelayEnd {
    pub first: Direction,
    pub failed: bool,
}

/// Why an attempt to relay a tunnel over the cluster was given up.
#[derive(Clone, Copy, Debug, PartialEq, Eq, Structural)]
pub enum ClusterError {
    /// The alias directory knows no node for the domain.
    AliasNotFound,
    /// No connection to the owning node could be made.
    ConnectFailed,
    /// No stream could be opened on the connection.
    StreamOpenFailed,
    /// The request could not be written.
    RequestWriteFailed,
    /// Reading the response failed.
    ResponseReadFailed,
    /// The stream ended before any byte of a response.
    ResponseNotReceived,
    /// What was read is no response.
    ResponseMalformed(DecodeError),
    /// The owning node refused the tunnel.
    ResponseNotSuccess,
    /// The driver reported something that the pending action cannot bring.
    UnexpectedEvent,
}

/// The classes of failure that logs and metrics tell apart.
#[derive(Clone, Copy, Debug, PartialEq, Eq, Structural)]
pub enum FailureKind {
    /// No node owns the domain.
    RoutingMiss,
    /// The network failed: connect, stream, write or read.
    Transport,
    /// The other node did not answer as the protocol demands.
    Protocol,
    /// The other node answered and refused.
    Refused,
    /// The driver did not follow the machine.
    Driver,
}

impl ClusterError {
    /// The text that describes this failure in logs.
    pub open spec fn spec_message(self) -> Seq<char> {
        match self {
            ClusterError::AliasNotFound => "NODE_ALIAS_NOT_FOUND"@,
            ClusterError::ConnectFailed => "connect to node failed"@,
            ClusterError::StreamOpenFailed => "open stream to node failed"@,
            ClusterError::RequestWriteFailed => "ClusterTunnelRequest not sent"@,
            ClusterError::ResponseReadFailed => "ClusterTunnelResponse read failed"@,
            ClusterError::ResponseNotReceived => "ClusterTunnelResponse not received"@,
            ClusterError::ResponseMalformed(_) => "ClusterTunnelResponse malformed"@,
            ClusterError::ResponseNotSuccess => "ClusterTunnelResponse not success"@,
            ClusterError::UnexpectedEvent => "unexpected event"@,
        }
    }

    /// The text that describes this failure in logs.
    pub fn message(&self) -> (text: &'static str)
        ensures
            text@ == self.spec_message(),
    {
        match self {
            ClusterError::AliasNotFound => "NODE_ALIAS_NOT_FOUND",
            ClusterError::ConnectFailed => "connect to node failed",
            ClusterError::StreamOpenFailed => "open stream to node failed",
            ClusterError::RequestWriteFailed => "ClusterTunnelRequest not sent",
            ClusterError::ResponseReadFailed => "ClusterTunnelResponse read failed",
            ClusterError::ResponseNotReceived => "ClusterTunnelResponse not received",
            ClusterError::ResponseMalformed(_) => "ClusterTunnelResponse malformed",
            ClusterError::ResponseNotSuccess => "ClusterTunnelResponse not success",
            ClusterError::UnexpectedEvent => "unexpected event",
        }
    }

    /// The class of this failure.
    pub open spec fn spec_kind(self) -> FailureKind {
        match self {
            ClusterError::AliasNotFound => FailureKind::RoutingMiss,
            ClusterError::ConnectFailed => FailureKind::Transport,
            ClusterError::StreamOpenFailed => FailureKind::Transport,
            ClusterError::RequestWriteFailed => FailureKind::Transport,
            ClusterError::ResponseReadFailed => FailureKind::Transport,
            ClusterError::ResponseNotReceived => FailureKind::Protocol,
            ClusterError::ResponseMalformed(_) => FailureKind::Protocol,
            ClusterError::ResponseNotSuccess => FailureKind::Refused,
            ClusterError::UnexpectedEvent => FailureKind::Driver,
        }
    }

    /// The class of this failure.
    pub fn kind(&self) -> (kind: FailureKind)
        ensures
            kind == self.spec_kind(),
    {
        match self {
            ClusterError::AliasNotFound => FailureKind::RoutingMiss,
            ClusterError::ConnectFailed => FailureKind::Transport,
            ClusterError::StreamOpenFailed => FailureKind::Transport,
            ClusterError::RequestWriteFailed => FailureKind::Transport,
            ClusterError::ResponseReadFailed => FailureKind::Transport,
            ClusterError::ResponseNotReceived => FailureKind::Protocol,
            ClusterError::ResponseMalformed(_) => FailureKind::Protocol,
            ClusterError::ResponseNotSuccess => FailureKind::Refused,
            ClusterError::UnexpectedEvent => FailureKind::Driver,
        }
    }
}

/// Where an attempt stands. Each state but the last waits for the outcome of
/// one action.
#[derive(Debug, PartialEq, Eq)]
pub enum ClusterState {
    /// Waiting for the alias directory to name the owner of `domain`.
    FindingAlias { domain: String },
    /// Waiting for the connection to the owner.
    Connecting { domain: String },
    /// Connected; waiting for a stream.
    OpeningStream { domain: String },
    /// Waiting for the request to be written.
    WritingRequest,
    /// Waiting for the response.
    ReadingResponse,
    /// The handshake succeeded; bytes are being relayed.
    Relaying,
    /// The attempt is over: `Ok` after a relay, `Err` when it was given up.
    Finished(Result<(), ClusterError>),
}

/// What the driver reports.
#[derive(Debug, PartialEq, Eq)]
pub enum ClusterEvent {
    /// The alias directory names this node as the owner.
    AliasFound(u32),
    /// The alias directory knows no owner.
    AliasNotFound,
    /// The connection stands.
    Connected,
    /// Connecting failed.
    ConnectFailed,
    /// The stream is open.
    StreamOpened,
    /// Opening the stream failed.
    StreamOpenFailed,
    /// The request is written.
    RequestWritten,
    /// Writing the request failed.
    RequestWriteFailed,
    /// These bytes were read from the stream.
    ResponseReceived(Vec<u8>),
    /// The stream ended before anything was read.
    ResponseStreamFinished,
    /// Reading failed.
    ResponseReadFailed,
    /// One direction of the relay is done.
    RelayEnded(RelayEnd),
}

/// What the driver has to do next.
#[derive(Debug, PartialEq, Eq)]
pub enum ClusterAction {
    /// Ask the alias directory which node owns `identity`.
    FindAlias { identity: u64 },
    /// Connect to `node` on `port`, presenting `server_name`.
    Connect { node: u32, port: u16, server_name: &'static str },
    /// Open a bidirectional stream on the connection.
    OpenStream,
    /// Write `bytes` to the stream.
    WriteRequest { bytes: Vec<u8> },
    /// Read once from the stream, at most `max_len` bytes.
    ReadResponse { max_len: usize },
    /// Write `early` to the proxy connection, then copy bytes in both
    /// directions until one direction is done, and stop the other. `early`
    /// holds what was read behind the response: the first bytes that the
    /// remote side sent for the tunnel.
    Relay { early: Vec<u8> },
    /// Close whatever is open; the attempt is over.
    Release,
}

/// [`ClusterState`] as a mathematical value.
pub enum ClusterStateView {
    FindingAlias { domain: Seq<char> },
    Connecting { domain: Seq<char> },
    OpeningStream { domain: Seq<char> },
    WritingRequest,
    ReadingResponse,
    Relaying,
    Finished(Result<(), ClusterError>),
}

/// [`ClusterEvent`] as a mathematical value.
pub enum ClusterEventView {
    AliasFound(u32),
    AliasNotFound,
    Connected,
    ConnectFailed,
    StreamOpened,
    StreamOpenFailed,
    RequestWritten,
    RequestWriteFailed,
    ResponseReceived(Seq<u8>),
    ResponseStreamFinished,
    ResponseReadFailed,
    RelayEnded(RelayEnd),
}

/// [`ClusterAction`] as a mathematical value.
pub enum ClusterActionView {
    FindAlias { identity: u64 },
    Connect { node: u32, port: u16, server_name: Seq<char> },
    OpenStream,
    WriteRequest { bytes: Seq<u8> },
    ReadResponse { max_len: usize },
    Relay { early: Seq<u8> },
    Release,
}

impl View for ClusterState {
    type V = ClusterStateView;

    open spec fn view(&self) -> ClusterStateView {
        match *self {
            ClusterState::FindingAlias { domain } => ClusterStateView::FindingAlias {
                domain: domain@,
            },
            ClusterState::Connecting { domain } => ClusterStateView::Connecting { domain: domain@ },
            ClusterState::OpeningStream { domain } => ClusterStateView::OpeningStream {
                domain: domain@,
            },
            ClusterState::WritingRequest => ClusterStateView::WritingRequest,
            ClusterState::ReadingResponse => ClusterStateView::ReadingResponse,
            ClusterState::Relaying => ClusterStateView::Relaying,
            ClusterState::Finished(outcome) => ClusterStateView::Finished(outcome),
        }
    }
}

impl View for ClusterEvent {
    type V = ClusterEventView;

    open spec fn view(&self) -> ClusterEventView {
        match *self {
            ClusterEvent::AliasFound(node) => ClusterEventView::AliasFound(node),
            ClusterEvent::AliasNotFound => ClusterEventView::AliasNotFound,
            ClusterEvent::Connected => ClusterEventView::Connected,
            ClusterEvent::ConnectFailed => ClusterEventView::ConnectFailed,
            ClusterEvent::StreamOpened => ClusterEventView::StreamOpened,
            ClusterEvent::StreamOpenFailed => ClusterEventView::StreamOpenFailed,
            ClusterEvent::RequestWritten => ClusterEventView::RequestWritten,
            ClusterEvent::RequestWriteFailed => ClusterEventView::RequestWriteFailed,
            ClusterEvent::ResponseReceived(bytes) => ClusterEventView::ResponseReceived(bytes@),
            ClusterEvent::ResponseStreamFinished => ClusterEventView::ResponseStreamFinished,
            ClusterEvent::ResponseReadFailed => ClusterEventView::ResponseReadFailed,
            ClusterEvent::RelayEnded(end) => ClusterEventView::RelayEnded(end),
        }
    }
}

impl View for ClusterAction {
    type V = ClusterActionView;

    open spec fn view(&self) -> ClusterActionView {
        match *self {
            ClusterAction::FindAlias { identity } => ClusterActionView::FindAlias { identity },
            ClusterAction::Connect { node, port, server_name } => ClusterActionView::Connect {
                node,
                port,
                server_name: server_name@,
            },
            ClusterAction::OpenStream => ClusterActionView::OpenStream,
            ClusterAction::WriteRequest { bytes } => ClusterActionView::WriteRequest {
                bytes: bytes@,
            },
            ClusterAction::ReadResponse { max_len } => ClusterActionView::ReadResponse { max_len },
            ClusterAction::Relay { early } => ClusterActionView::Relay { early: early@ },
            ClusterAction::Release => ClusterActionView::Release,
        }
    }
}

impl ClusterStateView {
    /// Whether the attempt is over.
    pub open spec fn is_finished(self) -> bool {
        self is Finished
    }
}

impl ClusterState {
    /// Whether the attempt is over.
    pub fn is_finished(&self) -> (finished: bool)
        ensures
            finished == self@.is_finished(),
    {
        match self {
            ClusterState::Finished(_) => true,
            _ => false,
        }
    }

    /// The outcome of the attempt, once it is over.
    pub fn outcome(&self) -> (outcome: Option<Result<(), ClusterError>>)
        ensures
            outcome == (match self@ {
                ClusterStateView::Finished(result) => Some(result),
                _ => None,
            }),
    {
        match self {
            ClusterState::Finished(result) => Some(*result),
            _ => None,
        }
    }
}

/// State and first action of an attempt for `domain`.
pub open spec fn cluster_start(domain: Seq<char>) -> (ClusterStateView, ClusterActionView) {
    (
        ClusterStateView::FindingAlias { domain },
        ClusterActionView::FindAlias { identity: spec_home_id(domain) },
    )
}

/// The end of an attempt that is given up because of `error`.
pub open spec fn cluster_give_up(error: ClusterError) -> (ClusterStateView, ClusterActionView) {
    (ClusterStateView::Finished(Err(error)), ClusterActionView::Release)
}

/// What follows the bytes `bytes`, read while waiting for the response.
///
/// More bytes than were asked for cannot come from the read that was handed
/// out. Otherwise the bytes must start with a response, and the response must
/// report success: only then does the relay start, and it starts with the
/// bytes that were read behind the response.
pub open spec fn cluster_on_response(bytes: Seq<u8>) -> (ClusterStateView, ClusterActionView) {
    if bytes.len() > MAX_RESPONSE_FRAME {
        cluster_give_up(ClusterError::UnexpectedEvent)
    } else {
        match spec_decode_response(bytes) {
            Ok(response) => if response.success {
                (
                    ClusterStateView::Relaying,
                    ClusterActionView::Relay { early: behind_response(bytes) },
                )
            } else {
                cluster_give_up(ClusterError::ResponseNotSuccess)
            },
            Err(e) => cluster_give_up(ClusterError::ResponseMalformed(e)),
        }
    }
}

/// The transition of an attempt: the state after `event` arrives in `state`,
/// and the action to perform then.
pub open spec fn cluster_step(state: ClusterStateView, event: ClusterEventView) -> (
    ClusterStateView,
    ClusterActionView,
) {
    match state {
        ClusterStateView::FindingAlias { domain } => match event {
            ClusterEventView::AliasFound(node) => (
                ClusterStateView::Connecting { domain },
                ClusterActionView::Connect {
                    node,
                    port: CLUSTER_PORT,
                    server_name: CLUSTER_SERVER_NAME@,
                },
            ),
            ClusterEventView::AliasNotFound => cluster_give_up(ClusterError::AliasNotFound),
            _ => cluster_give_up(ClusterError::UnexpectedEvent),
        },
        ClusterStateView::Connecting { domain } => match event {
            ClusterEventView::Connected => (
                ClusterStateView::OpeningStream { domain },
                ClusterActionView::OpenStream,
            ),
            ClusterEventView::ConnectFailed => cluster_give_up(ClusterError::ConnectFailed),
            _ => cluster_give_up(ClusterError::UnexpectedEvent),
        },
        ClusterStateView::OpeningStream { domain } => match event {
            ClusterEventView::StreamOpened => (
                ClusterStateView::WritingRequest,
                ClusterActionView::WriteRequest { bytes: spec_encode_request(domain) },
            ),
            ClusterEventView::StreamOpenFailed => cluster_give_up(ClusterError::StreamOpenFailed),
            _ => cluster_give_up(ClusterError::UnexpectedEvent),
        },
        ClusterStateView::WritingRequest => match event {
            ClusterEventView::RequestWritten => (
                ClusterStateView::ReadingResponse,
                ClusterActionView::ReadResponse { max_len: MAX_RESPONSE_FRAME },
            ),
            ClusterEventView::RequestWriteFailed => cluster_give_up(
                ClusterError::RequestWriteFailed,
            ),
            _ => cluster_give_up(ClusterError::UnexpectedEvent),
        },
        ClusterStateView::ReadingResponse => match event {
            ClusterEventView::ResponseReceived(bytes) => cluster_on_response(bytes),
            ClusterEventView::ResponseStreamFinished => cluster_give_up(
                ClusterError::ResponseNotReceived,
            ),
            ClusterEventView::ResponseReadFailed => cluster_give_up(
                ClusterError::ResponseReadFailed,
            ),
            _ => cluster_give_up(ClusterError::UnexpectedEvent),
        },
        ClusterStateView::Relaying => match event {
            ClusterEventView::RelayEnded(_) => (
                ClusterStateView::Finished(Ok(())),
                ClusterActionView::Release,
            ),
            _ => cluster_give_up(ClusterError::UnexpectedEvent),
        },
        ClusterStateView::Finished(outcome) => (
            ClusterStateView::Finished(outcome),
            ClusterActionView::Release,
        ),
    }
}

/// Ends the attempt with `error`.
fn give_up(error: ClusterError) -> (end: (ClusterState, ClusterAction))
    ensures
        (end.0@, end.1@) == cluster_give_up(error),
{
    (ClusterState::Finished(Err(error)), ClusterAction::Release)
}

/// Decides what follows the bytes read while waiting for the response.
///
/// The relay starts if and only if `bytes` is no longer than the read allowed
/// and starts with a response that reports success; the relay is then handed
/// every byte of `bytes` behind the response, in order. A response that
/// reports refusal, bytes that are no response, and bytes beyond the allowed
/// length each end the attempt with their own error.
pub fn on_response(bytes: &[u8]) -> (next: (ClusterState, ClusterAction))
    ensures
        (next.0@, next.1@) == cluster_on_response(bytes@),
{
    if bytes.len() > MAX_RESPONSE_FRAME {
        return give_up(ClusterError::UnexpectedEvent);
    }
    match ClusterTunnelResponse::decode(bytes) {
        Ok(response) => {
            if response.success {
                let early = slice_to_vec(slice_subrange(bytes, RESPONSE_FRAME_LEN, bytes.len()));
                (ClusterState::Relaying, ClusterAction::Relay { early })
            } else {
                give_up(ClusterError::ResponseNotSuccess)
            }
        },
        Err(e) => give_up(ClusterError::ResponseMalformed(e)),
    }
}

/// Starts an attempt to relay a tunnel for `domain` over the cluster: the
/// first thing to do is to ask the alias directory for the identity of the
/// domain.
pub fn start_cluster_tunnel(domain: String) -> (start: (ClusterState, ClusterAction))
    ensures
        (start.0@, start.1@) == cluster_start(domain@),
{
    let identity: u64 = home_id_from_domain(domain.as_str());
    (ClusterState::FindingAlias { domain }, ClusterAction::FindAlias { identity })
}

/// Advances an attempt by one event.
///
/// `event` is the outcome of the action handed out with `state`; the result is
/// the next state and the next action. The steps follow one another in a fixed
/// order: find the owner, connect to it on [`CLUSTER_PORT`] under
/// [`CLUSTER_SERVER_NAME`], open a stream, write the request for the domain,
/// read at most [`MAX_RESPONSE_FRAME`] bytes, relay, starting with what was
/// read behind the response. A failure at any step, a
/// response that is malformed or reports refusal, and an event that does not
/// belong to the pending action end the attempt with the matching
/// [`ClusterError`]. The end of the relay, clean or not, ends it with `Ok`.
/// Every end hands out [`ClusterAction::Release`], and so does every event
/// after the end.
pub fn tunnel_over_cluster(state: ClusterState, event: ClusterEvent) -> (next: (
    ClusterState,
    ClusterAction,
))
    ensures
        (next.0@, next.1@) == cluster_step(state@, event@),
{
    match state {
        ClusterState::FindingAlias { domain } => match event {
            ClusterEvent::AliasFound(node) => (
                ClusterState::Connecting { domain },
                ClusterAction::Connect {
                    node,
                    port: CLUSTER_PORT,
                    server_name: CLUSTER_SERVER_NAME,
                },
            ),
            ClusterEvent::AliasNotFound => give_up(ClusterError::AliasNotFound),
            _ => give_up(ClusterError::UnexpectedEvent),
        },
        ClusterState::Connecting { domain } => match event {
            ClusterEvent::Connected => (
                ClusterState::OpeningStream { domain },
                ClusterAction::OpenStream,
            ),
            ClusterEvent::ConnectFailed => give_up(ClusterError::ConnectFailed),
            _ => give_up(ClusterError::UnexpectedEvent),
        },
        ClusterState::OpeningStream { domain } => match event {
            ClusterEvent::StreamOpened => {
                let request = ClusterTunnelRequest::new(domain);
                (
                    ClusterState::WritingRequest,
                    ClusterAction::WriteRequest { bytes: request.encode() },
                )
            },
            ClusterEvent::StreamOpenFailed => give_up(ClusterError::StreamOpenFailed),
            _ => give_up(ClusterError::UnexpectedEvent),
        },
        ClusterState::WritingRequest => match event {
            ClusterEvent::RequestWritten => (
                ClusterState::ReadingResponse,
                ClusterAction::ReadResponse { max_len: MAX_RESPONSE_FRAME },
            ),
            ClusterEvent::RequestWriteFailed => give_up(ClusterError::RequestWriteFailed),
            _ => give_up(ClusterError::UnexpectedEvent),
        },
        ClusterState::ReadingResponse => match event {
            ClusterEvent::ResponseReceived(bytes) => on_response(bytes.as_slice()),
            ClusterEvent::ResponseStreamFinished => give_up(ClusterError::ResponseNotReceived),
            ClusterEvent::ResponseReadFailed => give_up(ClusterError::ResponseReadFailed),
            _ => give_up(ClusterError::UnexpectedEvent),
        },
        ClusterState::Relaying => match event {
            ClusterEvent::RelayEnded(_) => (
                ClusterState::Finished(Ok(())),
                ClusterAction::Release,
            ),
            _ => give_up(ClusterError::UnexpectedEvent),
        },
        ClusterState::Finished(outcome) => (ClusterState::Finished(outcome), ClusterAction::Release),
    }
}

} // verus!
