//! Routing of one inbound proxy connection.
//!
//! A pending tunnel is first given a bounded time to name its domain. The
//! domain's identity is then looked up in the agent registry: on a hit the
//! tunnel is handed to the agent, on a miss it is relayed over the cluster if
//! the tunnel came in from outside, and rejected if it came from the cluster
//! already. Every path ends with everything released.
//!
//! The machine below takes these decisions and leaves waiting, locking and
//! the network to its driver. The driver performs the [`TunnelAction`] it is
//! given and reports the outcome as a [`TunnelEvent`], until the action is
//! [`TunnelAction::Release`]. What holds of every run of the machine, whatever
//! the driver reports, is stated and proved in [`crate::trace`].

use crate::cluster::{
    cluster_start,
    cluster_step,
    start_cluster_tunnel,
    tunnel_over_cluster,
    ClusterAction,
    ClusterActionView,
    ClusterError,
    ClusterEvent,
    ClusterEventView,
    ClusterState,
    ClusterStateView,
};
use crate::identity::{home_id_from_domain, spec_home_id};
use crate::registry::AgentRegistry;
use vstd::prelude::*;

verus! {

/// How many seconds a pending tunnel is given to name its domain.
pub const READY_TIMEOUT_SECS: u64 = 5;

/// Where a pending tunnel came from.
#[derive(Clone, Copy, Debug, PartialEq, Eq, Structural)]
pub enum TunnelContext {
    /// From another node of the cluster. Such a tunnel is served by a local
    /// agent or not at all: it is not relayed a second time.
    Cluster,
    /// From a proxy listener of this node. Such a tunnel may be relayed to the
    /// node that owns its domain.
    Local,
}

/// Why a pending tunnel was dropped without being served.
#[derive(Clone, Copy, Debug, PartialEq, Eq, Structural)]
pub enum RejectReason {
    /// The tunnel did not name its domain in time.
    ReadyTimeout,
    /// The tunnel turned out to be invalid.
    InvalidDomain,
    /// No agent serves the domain here, and the tunnel may not be relayed.
    AgentNotFound,
    /// Relaying over the cluster was given up.
    Cluster(ClusterError),
    /// The driver reported something that the pending action cannot bring.
    UnexpectedEvent,
}

/// Where the routing of a pending tunnel stands.
#[derive(Debug, PartialEq, Eq)]
pub enum TunnelState {
    /// Waiting for the tunnel to name its domain.
    AwaitingDomain { context: TunnelContext },
    /// Waiting for the registry lookup of `domain`.
    LocalDispatch { domain: String, context: TunnelContext },
    /// Waiting for the agent's queue to take the tunnel.
    HandingOff,
    /// Relaying over the cluster; the inner state tells how far that is.
    OverCluster(ClusterState),
    /// The tunnel was dropped.
    Rejected(RejectReason),
    /// The tunnel was served: handed to an agent, or relayed to its end.
    Closed,
}

/// What the driver reports.
#[derive(Debug, PartialEq, Eq)]
pub enum TunnelEvent {
    /// The tunnel did not become ready in time.
    ReadyTimeout,
    /// The tunnel became ready and is invalid.
    ReadyInvalid,
    /// The tunnel became ready and names this domain.
    Ready(String),
    /// The registry holds an agent for the identity.
    AgentFound,
    /// The registry holds no agent for the identity.
    AgentMissing,
    /// The send to the agent's queue returned.
    HandedOff,
    /// The outcome of a step of the cluster relay.
    Cluster(ClusterEvent),
}

/// What the driver has to do next.
#[derive(Debug, PartialEq, Eq)]
pub enum TunnelAction {
    /// Wait until the tunnel is ready, at most `timeout_secs` seconds.
    AwaitReady { timeout_secs: u64 },
    /// Look `identity` up in the agent registry.
    LookupAgent { identity: u64 },
    /// Send the tunnel to the queue of the agent that was found.
    HandOff,
    /// Perform this step of the cluster relay.
    Cluster(ClusterAction),
    /// Drop and close whatever is still held; routing is over.
    Release,
}

/// [`TunnelState`] as a mathematical value.
pub enum TunnelStateView {
    AwaitingDomain { context: TunnelContext },
    LocalDispatch { domain: Seq<char>, context: TunnelContext },
    HandingOff,
    OverCluster(ClusterStateView),
    Rejected(RejectReason),
    Closed,
}

/// [`TunnelEvent`] as a mathematical value.
pub enum TunnelEventView {
    ReadyTimeout,
    ReadyInvalid,
    Ready(Seq<char>),
    AgentFound,
    AgentMissing,
    HandedOff,
    Cluster(ClusterEventView),
}

/// [`TunnelAction`] as a mathematical value.
pub enum TunnelActionView {
    AwaitReady { timeout_secs: u64 },
    LookupAgent { identity: u64 },
    HandOff,
    Cluster(ClusterActionView),
    Release,
}

impl View for TunnelState {
    type V = TunnelStateView;

    open spec fn view(&self) -> TunnelStateView {
        match *self {
            TunnelState::AwaitingDomain { context } => TunnelStateView::AwaitingDomain { context },
            TunnelState::LocalDispatch { domain, context } => TunnelStateView::LocalDispatch {
                domain: domain@,
                context,
            },
            TunnelState::HandingOff => TunnelStateView::HandingOff,
            TunnelState::OverCluster(inner) => TunnelStateView::OverCluster(inner@),
            TunnelState::Rejected(reason) => TunnelStateView::Rejected(reason),
            TunnelState::Closed => TunnelStateView::Closed,
        }
    }
}

impl View for TunnelEvent {
    type V = TunnelEventView;

    open spec fn view(&self) -> TunnelEventView {
        match *self {
            TunnelEvent::ReadyTimeout => TunnelEventView::ReadyTimeout,
            TunnelEvent::ReadyInvalid => TunnelEventView::ReadyInvalid,
            TunnelEvent::Ready(domain) => TunnelEventView::Ready(domain@),
            TunnelEvent::AgentFound => TunnelEventView::AgentFound,
            TunnelEvent::AgentMissing => TunnelEventView::AgentMissing,
            TunnelEvent::HandedOff => TunnelEventView::HandedOff,
            TunnelEvent::Cluster(inner) => TunnelEventView::Cluster(inner@),
        }
    }
}

impl View for TunnelAction {
    type V = TunnelActionView;

    open spec fn view(&self) -> TunnelActionView {
        match *self {
            TunnelAction::AwaitReady { timeout_secs } => TunnelActionView::AwaitReady {
                timeout_secs,
            },
            TunnelAction::LookupAgent { identity } => TunnelActionView::LookupAgent { identity },
            TunnelAction::HandOff => TunnelActionView::HandOff,
            TunnelAction::Cluster(inner) => TunnelActionView::Cluster(inner@),
            TunnelAction::Release => TunnelActionView::Release,
        }
    }
}

impl RejectReason {
    /// The text that describes this rejection in logs.
    pub open spec fn spec_message(self) -> Seq<char> {
        match self {
            RejectReason::ReadyTimeout => "proxy_tunnel.wait() for checking url timeout"@,
            RejectReason::InvalidDomain => "proxy_tunnel.wait() for checking url invalid"@,
            RejectReason::AgentNotFound => "agent not found"@,
            RejectReason::Cluster(error) => error.spec_message(),
            RejectReason::UnexpectedEvent => "unexpected event"@,
        }
    }

    /// The text that describes this rejection in logs. A rejection by the
    /// cluster relay has the text of the relay's error.
    pub fn message(&self) -> (text: &'static str)
        ensures
            text@ == self.spec_message(),
    {
        match self {
            RejectReason::ReadyTimeout => "proxy_tunnel.wait() for checking url timeout",
            RejectReason::InvalidDomain => "proxy_tunnel.wait() for checking url invalid",
            RejectReason::AgentNotFound => "agent not found",
            RejectReason::Cluster(error) => error.message(),
            RejectReason::UnexpectedEvent => "unexpected event",
        }
    }
}

impl TunnelStateView {
    /// Whether routing is over: the tunnel was rejected or closed.
    pub open spec fn is_terminal(self) -> bool {
        self is Rejected || self is Closed
    }
}

impl TunnelState {
    /// Whether routing is over: the tunnel was rejected or closed.
    pub fn is_terminal(&self) -> (terminal: bool)
        ensures
            terminal == self@.is_terminal(),
    {
        match self {
            TunnelState::Rejected(_) => true,
            TunnelState::Closed => true,
            _ => false,
        }
    }

    /// Why the tunnel was rejected, if it was.
    pub fn rejection(&self) -> (reason: Option<RejectReason>)
        ensures
            reason == (match self@ {
                TunnelStateView::Rejected(r) => Some(r),
                _ => None,
            }),
    {
        match self {
            TunnelState::Rejected(r) => Some(*r),
            _ => None,
        }
    }
}

/// State and first action of the routing of a tunnel that came from
/// `context`.
pub open spec fn tunnel_start(context: TunnelContext) -> (TunnelStateView, TunnelActionView) {
    (
        TunnelStateView::AwaitingDomain { context },
        TunnelActionView::AwaitReady { timeout_secs: READY_TIMEOUT_SECS },
    )
}

/// The end of a routing that rejects the tunnel for `reason`.
pub open spec fn tunnel_reject(reason: RejectReason) -> (TunnelStateView, TunnelActionView) {
    (TunnelStateView::Rejected(reason), TunnelActionView::Release)
}

/// A step of the cluster relay, seen from the routing: while the relay goes
/// on its step is passed through, and its end is the end of the routing.
pub open spec fn tunnel_lift(step: (ClusterStateView, ClusterActionView)) -> (
    TunnelStateView,
    TunnelActionView,
) {
    match step.0 {
        ClusterStateView::Finished(Ok(())) => (TunnelStateView::Closed, TunnelActionView::Release),
        ClusterStateView::Finished(Err(error)) => tunnel_reject(RejectReason::Cluster(error)),
        _ => (TunnelStateView::OverCluster(step.0), TunnelActionView::Cluster(step.1)),
    }
}

/// The transition of the routing: the state after `event` arrives in `state`,
/// and the action to perform then.
pub open spec fn tunnel_step(state: TunnelStateView, event: TunnelEventView) -> (
    TunnelStateView,
    TunnelActionView,
) {
    match state {
        TunnelStateView::AwaitingDomain { context } => match event {
            TunnelEventView::ReadyTimeout => tunnel_reject(RejectReason::ReadyTimeout),
            TunnelEventView::ReadyInvalid => tunnel_reject(RejectReason::InvalidDomain),
            TunnelEventView::Ready(domain) => (
                TunnelStateView::LocalDispatch { domain, context },
                TunnelActionView::LookupAgent { identity: spec_home_id(domain) },
            ),
            _ => tunnel_reject(RejectReason::UnexpectedEvent),
        },
        TunnelStateView::LocalDispatch { domain, context } => match event {
            TunnelEventView::AgentFound => (
                TunnelStateView::HandingOff,
                TunnelActionView::HandOff,
            ),
            TunnelEventView::AgentMissing => match context {
                TunnelContext::Local => tunnel_lift(cluster_start(domain)),
                TunnelContext::Cluster => tunnel_reject(RejectReason::AgentNotFound),
            },
            _ => tunnel_reject(RejectReason::UnexpectedEvent),
        },
        TunnelStateView::HandingOff => match event {
            TunnelEventView::HandedOff => (TunnelStateView::Closed, TunnelActionView::Release),
            _ => tunnel_reject(RejectReason::UnexpectedEvent),
        },
        TunnelStateView::OverCluster(inner) => match event {
            TunnelEventView::Cluster(inner_event) => tunnel_lift(cluster_step(inner, inner_event)),
            _ => tunnel_reject(RejectReason::UnexpectedEvent),
        },
        TunnelStateView::Rejected(reason) => tunnel_reject(reason),
        TunnelStateView::Closed => (TunnelStateView::Closed, TunnelActionView::Release),
    }
}

/// What a lookup of `identity` in the registry `agents` reports.
pub open spec fn lookup_event<S>(agents: Map<u64, S>, identity: u64) -> TunnelEventView {
    if agents.contains_key(identity) {
        TunnelEventView::AgentFound
    } else {
        TunnelEventView::AgentMissing
    }
}

/// Rejects the tunnel for `reason`.
fn reject(reason: RejectReason) -> (end: (TunnelState, TunnelAction))
    ensures
        (end.0@, end.1@) == tunnel_reject(reason),
{
    (TunnelState::Rejected(reason), TunnelAction::Release)
}

/// Passes a step of the cluster relay on to the routing.
fn lift(step: (ClusterState, ClusterAction)) -> (next: (TunnelState, TunnelAction))
    ensures
        (next.0@, next.1@) == tunnel_lift((step.0@, step.1@)),
{
    let (inner, action) = step;
    match inner {
        ClusterState::Finished(outcome) => match outcome {
            Ok(_) => (TunnelState::Closed, TunnelAction::Release),
            Err(error) => reject(RejectReason::Cluster(error)),
        },
        _ => (TunnelState::OverCluster(inner), TunnelAction::Cluster(action)),
    }
}

/// Starts the routing of a pending tunnel that came from `context`: the first
/// thing to do is to wait, for at most [`READY_TIMEOUT_SECS`] seconds, until
/// the tunnel names its domain.
pub fn accept_tunnel(context: TunnelContext) -> (start: (TunnelState, TunnelAction))
    ensures
        (start.0@, start.1@) == tunnel_start(context),
{
    (
        TunnelState::AwaitingDomain { context },
        TunnelAction::AwaitReady { timeout_secs: READY_TIMEOUT_SECS },
    )
}

/// Performs [`TunnelAction::LookupAgent`] on `registry`: reports whether an
/// agent is registered under `identity`, and lends its hand-off handle if so.
pub fn lookup_agent<S>(registry: &AgentRegistry<S>, identity: u64) -> (found: (
    TunnelEvent,
    Option<&S>,
))
    ensures
        found.0@ == lookup_event(registry@.entries, identity),
        found.1.is_some() == registry@.entries.contains_key(identity),
        found.1 matches Some(sender) ==> Some(*sender) == registry@.lookup(identity),
{
    match registry.lookup(identity) {
        Some(sender) => (TunnelEvent::AgentFound, Some(sender)),
        None => (TunnelEvent::AgentMissing, None),
    }
}

/// Advances the routing of a pending tunnel by one event.
///
/// `event` is the outcome of the action handed out with `state`; the result is
/// the next state and the next action.
///
/// * A tunnel that does not name a valid domain in time is rejected.
/// * A tunnel with a domain is looked up in the registry under the identity of
///   the domain. If an agent is found the tunnel is handed to it and the
///   routing is closed once the send returns, whether or not the agent took
///   the tunnel.
/// * If no agent is found, a tunnel from [`TunnelContext::Local`] is relayed
///   over the cluster, step by step as [`tunnel_over_cluster`] says, and a
///   tunnel from [`TunnelContext::Cluster`] is rejected.
/// * An event that does not belong to the pending action rejects the tunnel.
/// * Every step into `Rejected` or `Closed` hands out
///   [`TunnelAction::Release`], and so does every event after that.
pub fn tunnel_task(state: TunnelState, event: TunnelEvent) -> (next: (TunnelState, TunnelAction))
    ensures
        (next.0@, next.1@) == tunnel_step(state@, event@),
{
    match state {
        TunnelState::AwaitingDomain { context } => match event {
            TunnelEvent::ReadyTimeout => reject(RejectReason::ReadyTimeout),
            TunnelEvent::ReadyInvalid => reject(RejectReason::InvalidDomain),
            TunnelEvent::Ready(domain) => {
                let identity: u64 = home_id_from_domain(domain.as_str());
                (
                    TunnelState::LocalDispatch { domain, context },
                    TunnelAction::LookupAgent { identity },
                )
            },
            _ => reject(RejectReason::UnexpectedEvent),
        },
        TunnelState::LocalDispatch { domain, context } => match event {
            TunnelEvent::AgentFound => (TunnelState::HandingOff, TunnelAction::HandOff),
            TunnelEvent::AgentMissing => match context {
                TunnelContext::Local => lift(start_cluster_tunnel(domain)),
                TunnelContext::Cluster => reject(RejectReason::AgentNotFound),
            },
            _ => reject(RejectReason::UnexpectedEvent),
        },
        TunnelState::HandingOff => match event {
            TunnelEvent::HandedOff => (TunnelState::Closed, TunnelAction::Release),
            _ => reject(RejectReason::UnexpectedEvent),
        },
        TunnelState::OverCluster(inner) => match event {
            TunnelEvent::Cluster(inner_event) => lift(tunnel_over_cluster(inner, inner_event)),
            _ => reject(RejectReason::UnexpectedEvent),
        },
        TunnelState::Rejected(reason) => reject(reason),
        TunnelState::Closed => (TunnelState::Closed, TunnelAction::Release),
    }
}

} // verus!
