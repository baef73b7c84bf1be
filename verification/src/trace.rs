//! Runs of the tunnel routing, and what holds of all of them.
//!
//! A run is the routing machine of [`crate::tunnel`] fed with a sequence of
//! events. The driver is free in what it reports, so the laws here quantify
//! over every sequence: they hold of a well-behaved driver and of any other.

use crate::agent::{agent_start, AgentAction};
use crate::cluster::{
    ClusterActionView,
    ClusterError,
    ClusterEventView,
    ClusterStateView,
    RelayEnd,
    CLUSTER_PORT,
    CLUSTER_SERVER_NAME,
};
use crate::identity::spec_home_id;
use crate::protocol::{
    behind_response,
    lemma_response_splits,
    spec_decode_response,
    spec_encode_request,
    spec_encode_response,
    ClusterTunnelResponse,
    DecodeError,
    MAX_RESPONSE_FRAME,
};
use crate::registry::RegistryView;
use crate::tunnel::{
    lookup_event,
    tunnel_start,
    tunnel_step,
    RejectReason,
    TunnelActionView,
    TunnelContext,
    TunnelEventView,
    TunnelStateView,
    READY_TIMEOUT_SECS,
};
use vstd::prelude::*;

verus! {

/// The state that the routing is in after `events` arrive in `state`, one
/// after the other, and the actions handed out on the way.
pub open spec fn tunnel_run_from(state: TunnelStateView, events: Seq<TunnelEventView>) -> (
    TunnelStateView,
    Seq<TunnelActionView>,
)
    decreases events.len(),
{
    if events.len() == 0 {
        (state, Seq::empty())
    } else {
        let (next, action) = tunnel_step(state, events.first());
        let (last, rest) = tunnel_run_from(next, events.drop_first());
        (last, seq![action] + rest)
    }
}

/// A whole run: the routing of a tunnel from `context` to which `events` are
/// reported. The first action is the one handed out at the start, and the
/// action at `i + 1` answers the event at `i`.
pub open spec fn tunnel_run(context: TunnelContext, events: Seq<TunnelEventView>) -> (
    TunnelStateView,
    Seq<TunnelActionView>,
) {
    let (state, first) = tunnel_start(context);
    let (last, rest) = tunnel_run_from(state, events);
    (last, seq![first] + rest)
}

/// The stage at which the pending tunnel is delivered, to an agent or to the
/// relay. It is the last stage before the end.
pub open spec fn delivery_stage() -> nat {
    7
}

/// The stage at which the routing is over.
pub open spec fn final_stage() -> nat {
    8
}

/// How far an attempt over the cluster has come.
pub open spec fn cluster_progress(state: ClusterStateView) -> nat {
    match state {
        ClusterStateView::FindingAlias { .. } => 2,
        ClusterStateView::Connecting { .. } => 3,
        ClusterStateView::OpeningStream { .. } => 4,
        ClusterStateView::WritingRequest => 5,
        ClusterStateView::ReadingResponse => 6,
        ClusterStateView::Relaying => delivery_stage(),
        ClusterStateView::Finished(_) => final_stage(),
    }
}

/// How far the routing has come.
pub open spec fn state_progress(state: TunnelStateView) -> nat {
    match state {
        TunnelStateView::AwaitingDomain { .. } => 0,
        TunnelStateView::LocalDispatch { .. } => 1,
        TunnelStateView::HandingOff => delivery_stage(),
        TunnelStateView::OverCluster(inner) => cluster_progress(inner),
        TunnelStateView::Rejected(_) => final_stage(),
        TunnelStateView::Closed => final_stage(),
    }
}

/// The stage that an action belongs to.
pub open spec fn action_progress(action: TunnelActionView) -> nat {
    match action {
        TunnelActionView::AwaitReady { .. } => 0,
        TunnelActionView::LookupAgent { .. } => 1,
        TunnelActionView::HandOff => delivery_stage(),
        TunnelActionView::Cluster(inner) => match inner {
            ClusterActionView::FindAlias { .. } => 2,
            ClusterActionView::Connect { .. } => 3,
            ClusterActionView::OpenStream => 4,
            ClusterActionView::WriteRequest { .. } => 5,
            ClusterActionView::ReadResponse { .. } => 6,
            ClusterActionView::Relay { .. } => delivery_stage(),
            ClusterActionView::Release => final_stage(),
        },
        TunnelActionView::Release => final_stage(),
    }
}

/// Whether `action` asks for nothing but what the domain `domain` and the
/// constants of the protocol call for.
pub open spec fn action_fits(action: TunnelActionView, domain: Seq<char>) -> bool {
    match action {
        TunnelActionView::AwaitReady { timeout_secs } => timeout_secs == READY_TIMEOUT_SECS,
        TunnelActionView::LookupAgent { identity } => identity == spec_home_id(domain),
        TunnelActionView::Cluster(inner) => match inner {
            ClusterActionView::FindAlias { identity } => identity == spec_home_id(domain),
            ClusterActionView::Connect { port, server_name, .. } => port == CLUSTER_PORT
                && server_name == CLUSTER_SERVER_NAME@,
            ClusterActionView::WriteRequest { bytes } => bytes == spec_encode_request(domain),
            ClusterActionView::ReadResponse { max_len } => max_len == MAX_RESPONSE_FRAME,
            _ => true,
        },
        _ => true,
    }
}

/// Whether `state` is past the readiness check and, where it remembers a
/// domain, remembers `domain`.
pub open spec fn state_fits(state: TunnelStateView, domain: Seq<char>) -> bool {
    match state {
        TunnelStateView::AwaitingDomain { .. } => false,
        TunnelStateView::LocalDispatch { domain: d, .. } => d == domain,
        TunnelStateView::OverCluster(inner) => match inner {
            ClusterStateView::FindingAlias { domain: d } => d == domain,
            ClusterStateView::Connecting { domain: d } => d == domain,
            ClusterStateView::OpeningStream { domain: d } => d == domain,
            _ => true,
        },
        _ => true,
    }
}

/// What the driver holds open on behalf of one tunnel.
pub struct Holdings {
    /// The pending tunnel itself.
    pub tunnel: bool,
    /// The connection to the owning node.
    pub connection: bool,
    /// The stream on that connection.
    pub stream: bool,
}

/// Nothing is held.
pub open spec fn no_holdings() -> Holdings {
    Holdings { tunnel: false, connection: false, stream: false }
}

/// The holdings once `event` is reported: a connection that stands and a
/// stream that is open are held from then on.
pub open spec fn acquire(holdings: Holdings, event: TunnelEventView) -> Holdings {
    match event {
        TunnelEventView::Cluster(ClusterEventView::Connected) => Holdings {
            connection: true,
            ..holdings
        },
        TunnelEventView::Cluster(ClusterEventView::StreamOpened) => Holdings {
            stream: true,
            ..holdings
        },
        _ => holdings,
    }
}

/// The holdings once `action` is performed: a hand-off passes the tunnel to
/// the agent, and a release closes everything.
pub open spec fn release(holdings: Holdings, action: TunnelActionView) -> Holdings {
    match action {
        TunnelActionView::HandOff => Holdings { tunnel: false, ..holdings },
        TunnelActionView::Release => no_holdings(),
        _ => holdings,
    }
}

/// The holdings after `events` arrive in `state` and each action handed out
/// is performed, starting from `holdings`.
pub open spec fn holdings_from(
    holdings: Holdings,
    state: TunnelStateView,
    events: Seq<TunnelEventView>,
) -> Holdings
    decreases events.len(),
{
    if events.len() == 0 {
        holdings
    } else {
        let (next, action) = tunnel_step(state, events.first());
        holdings_from(release(acquire(holdings, events.first()), action), next, events.drop_first())
    }
}

/// The holdings at the end of a whole run: at its start the driver holds the
/// pending tunnel and nothing else.
pub open spec fn tunnel_holdings(context: TunnelContext, events: Seq<TunnelEventView>) -> Holdings {
    holdings_from(
        Holdings { tunnel: true, connection: false, stream: false },
        tunnel_start(context).0,
        events,
    )
}

/// Every event is answered by one action.
pub proof fn lemma_run_len(state: TunnelStateView, events: Seq<TunnelEventView>)
    ensures
        tunnel_run_from(state, events).1.len() == events.len(),
    decreases events.len(),
{
    if events.len() > 0 {
        lemma_run_len(tunnel_step(state, events.first()).0, events.drop_first());
    }
}

/// A run over `head` followed by `tail` is the run over `head`, continued
/// over `tail` from where it ended.
pub proof fn lemma_run_split(
    state: TunnelStateView,
    head: Seq<TunnelEventView>,
    tail: Seq<TunnelEventView>,
)
    ensures
        ({
            let (middle, first) = tunnel_run_from(state, head);
            let (last, second) = tunnel_run_from(middle, tail);
            tunnel_run_from(state, head + tail) == (last, first + second)
        }),
    decreases head.len(),
{
    let (middle, first) = tunnel_run_from(state, head);
    let (last, second) = tunnel_run_from(middle, tail);
    if head.len() == 0 {
        assert(head + tail =~= tail);
        assert(first + second =~= second);
    } else {
        let (next, action) = tunnel_step(state, head.first());
        assert((head + tail).first() == head.first());
        assert((head + tail).drop_first() =~= head.drop_first() + tail);
        lemma_run_split(next, head.drop_first(), tail);
        let rest = tunnel_run_from(next, head.drop_first()).1;
        assert(seq![action] + (rest + second) =~= (seq![action] + rest) + second);
    }
}

/// The action that answers the event at `i` is the step taken from the state
/// that the events before `i` led to.
pub proof fn lemma_run_index(state: TunnelStateView, events: Seq<TunnelEventView>, i: int)
    requires
        0 <= i < events.len(),
    ensures
        tunnel_run_from(state, events).1.len() == events.len(),
        tunnel_run_from(state, events).1[i] == tunnel_step(
            tunnel_run_from(state, events.take(i)).0,
            events[i],
        ).1,
    decreases i,
{
    lemma_run_len(state, events);
    let (next, action) = tunnel_step(state, events.first());
    let rest = tunnel_run_from(next, events.drop_first()).1;
    lemma_run_len(next, events.drop_first());
    if i == 0 {
        assert(events.take(0) =~= Seq::<TunnelEventView>::empty());
    } else {
        lemma_run_index(next, events.drop_first(), i - 1);
        assert(events.take(i).first() == events.first());
        assert(events.take(i).drop_first() =~= events.drop_first().take(i - 1));
    }
}

/// One step takes the routing to a later stage, hands out the action of that
/// stage, and never hands the cluster's own release through.
pub proof fn lemma_step_advances(state: TunnelStateView, event: TunnelEventView)
    ensures
        ({
            let (next, action) = tunnel_step(state, event);
            &&& action_progress(action) == state_progress(next)
            &&& state_progress(next) <= final_stage()
            &&& state_progress(state) < state_progress(next) || state_progress(next)
                == final_stage()
            &&& action_progress(action) == final_stage() <==> action == TunnelActionView::Release
            &&& next.is_terminal() <==> action == TunnelActionView::Release
        }),
{
}

/// Once the routing is over it stays as it is, and every further event is
/// answered by a release.
pub proof fn lemma_terminal_is_final(state: TunnelStateView, events: Seq<TunnelEventView>)
    requires
        state.is_terminal(),
    ensures
        tunnel_run_from(state, events).0 == state,
        tunnel_run_from(state, events).1.len() == events.len(),
        forall|i: int|
            0 <= i < events.len() ==> #[trigger] tunnel_run_from(state, events).1[i]
                == TunnelActionView::Release,
    decreases events.len(),
{
    if events.len() > 0 {
        lemma_terminal_is_final(state, events.drop_first());
    }
}

/// From any state on, the actions handed out belong to later and later
/// stages; only the release at the end may come again.
pub proof fn lemma_run_from_advances(state: TunnelStateView, events: Seq<TunnelEventView>)
    ensures
        ({
            let actions = tunnel_run_from(state, events).1;
            &&& actions.len() == events.len()
            &&& forall|i: int|
                0 <= i < actions.len() ==> state_progress(state) < action_progress(
                    #[trigger] actions[i],
                ) || actions[i] == TunnelActionView::Release
            &&& forall|i: int, j: int|
                0 <= i < j < actions.len() ==> action_progress(#[trigger] actions[i])
                    < action_progress(#[trigger] actions[j]) || actions[j]
                    == TunnelActionView::Release
        }),
    decreases events.len(),
{
    if events.len() > 0 {
        let (next, action) = tunnel_step(state, events.first());
        let rest = tunnel_run_from(next, events.drop_first()).1;
        let actions = tunnel_run_from(state, events).1;
        lemma_step_advances(state, events.first());
        lemma_run_from_advances(next, events.drop_first());
        assert(actions =~= seq![action] + rest);
        assert forall|i: int| 0 <= i < actions.len() implies state_progress(state)
            < action_progress(#[trigger] actions[i]) || actions[i]
            == TunnelActionView::Release by {
            if i > 0 {
                assert(actions[i] == rest[i - 1]);
            }
        }
        assert forall|i: int, j: int| 0 <= i < j < actions.len() implies action_progress(
            #[trigger] actions[i],
        ) < action_progress(#[trigger] actions[j]) || actions[j] == TunnelActionView::Release by {
            assert(actions[j] == rest[j - 1]);
            if i > 0 {
                assert(actions[i] == rest[i - 1]);
            }
        }
    }
}

/// No step is taken twice. In every run the actions belong to later and later
/// stages, and only the release at the end may come again: the readiness check,
/// the lookups, the connection and the handshake request each happen at most
/// once, and the tunnel is delivered at most once, either to an agent or to
/// the relay.
pub proof fn lemma_actions_never_repeat(context: TunnelContext, events: Seq<TunnelEventView>)
    ensures
        tunnel_run(context, events).1.len() == events.len() + 1,
        forall|i: int, j: int|
            0 <= i < j <= events.len() ==> action_progress(
                #[trigger] tunnel_run(context, events).1[i],
            ) < action_progress(#[trigger] tunnel_run(context, events).1[j]) || tunnel_run(
                context,
                events,
            ).1[j] == TunnelActionView::Release,
{
    let (state, first) = tunnel_start(context);
    let rest = tunnel_run_from(state, events).1;
    let actions = tunnel_run(context, events).1;
    lemma_run_from_advances(state, events);
    assert(actions =~= seq![first] + rest);
    assert forall|i: int, j: int| 0 <= i < j <= events.len() implies action_progress(
        #[trigger] actions[i],
    ) < action_progress(#[trigger] actions[j]) || actions[j] == TunnelActionView::Release by {
        assert(actions[j] == rest[j - 1]);
        if i > 0 {
            assert(actions[i] == rest[i - 1]);
        }
    }
}

/// Whether `action` delivers the pending tunnel: to a local agent, or to the
/// relay over the cluster.
pub open spec fn is_delivery(action: TunnelActionView) -> bool {
    action == TunnelActionView::HandOff || action matches TunnelActionView::Cluster(
        ClusterActionView::Relay { .. },
    )
}

/// A pending tunnel is consumed at most once: no run delivers it twice,
/// neither to two agents, nor to two relays, nor to an agent and a relay.
pub proof fn lemma_tunnel_is_delivered_at_most_once(
    context: TunnelContext,
    events: Seq<TunnelEventView>,
    i: int,
    j: int,
)
    requires
        0 <= i <= events.len(),
        0 <= j <= events.len(),
        i != j,
        is_delivery(tunnel_run(context, events).1[i]),
    ensures
        !is_delivery(tunnel_run(context, events).1[j]),
{
    let actions = tunnel_run(context, events).1;
    lemma_actions_never_repeat(context, events);
    if i < j {
        assert(action_progress(actions[i]) < action_progress(actions[j]) || actions[j]
            == TunnelActionView::Release);
    } else {
        assert(action_progress(actions[j]) < action_progress(actions[i]) || actions[i]
            == TunnelActionView::Release);
    }
}

/// Whether a rejection is due to the driver, which reported an event that the
/// pending action cannot bring.
pub open spec fn is_driver_fault(reason: RejectReason) -> bool {
    reason == RejectReason::UnexpectedEvent || reason == RejectReason::Cluster(
        ClusterError::UnexpectedEvent,
    )
}

/// From the moment of delivery on, the routing can only end closed, or be
/// rejected because the driver stepped out of line.
pub proof fn lemma_delivered_ends_closed(state: TunnelStateView, events: Seq<TunnelEventView>)
    requires
        state_progress(state) == delivery_stage() || state == TunnelStateView::Closed || (
        state matches TunnelStateView::Rejected(r) && is_driver_fault(r)),
    ensures
        ({
            let last = tunnel_run_from(state, events).0;
            last matches TunnelStateView::Rejected(r) ==> is_driver_fault(r)
        }),
    decreases events.len(),
{
    if events.len() > 0 {
        lemma_delivered_ends_closed(tunnel_step(state, events.first()).0, events.drop_first());
    }
}

/// From a state before delivery, a run that ends in a rejection which is not
/// the driver's fault has delivered nothing on the way.
pub proof fn lemma_run_from_rejected_undelivered(
    state: TunnelStateView,
    events: Seq<TunnelEventView>,
)
    requires
        state_progress(state) != delivery_stage(),
        tunnel_run_from(state, events).0 matches TunnelStateView::Rejected(r) && !is_driver_fault(
            r,
        ),
    ensures
        forall|i: int|
            0 <= i < tunnel_run_from(state, events).1.len() ==> !is_delivery(
                #[trigger] tunnel_run_from(state, events).1[i],
            ),
    decreases events.len(),
{
    if events.len() > 0 {
        let (next, action) = tunnel_step(state, events.first());
        let rest = tunnel_run_from(next, events.drop_first()).1;
        let actions = tunnel_run_from(state, events).1;
        lemma_step_advances(state, events.first());
        if state_progress(next) == delivery_stage() {
            lemma_delivered_ends_closed(next, events.drop_first());
        } else {
            lemma_run_from_rejected_undelivered(next, events.drop_first());
        }
        assert(actions =~= seq![action] + rest);
        assert forall|i: int| 0 <= i < actions.len() implies !is_delivery(
            #[trigger] actions[i],
        ) by {
            if i > 0 {
                assert(actions[i] == rest[i - 1]);
            }
        }
    }
}

/// A rejected tunnel was never served. In every run that ends in a rejection
/// which is not the driver's fault (a timeout, an invalid tunnel, a missing
/// agent or alias, a failed connection, a malformed or refusing response),
/// the tunnel was neither handed to an agent nor relayed: not one byte of it
/// was passed on.
pub proof fn lemma_rejected_means_undelivered(context: TunnelContext, events: Seq<TunnelEventView>)
    requires
        tunnel_run(context, events).0 matches TunnelStateView::Rejected(r) && !is_driver_fault(r),
    ensures
        forall|i: int|
            0 <= i <= events.len() ==> !is_delivery(#[trigger] tunnel_run(context, events).1[i]),
{
    let (state, first) = tunnel_start(context);
    let rest = tunnel_run_from(state, events).1;
    let actions = tunnel_run(context, events).1;
    lemma_run_len(state, events);
    lemma_run_from_rejected_undelivered(state, events);
    assert(actions =~= seq![first] + rest);
    assert forall|i: int| 0 <= i <= events.len() implies !is_delivery(#[trigger] actions[i]) by {
        if i > 0 {
            assert(actions[i] == rest[i - 1]);
        }
    }
}

/// One step keeps the domain: from a state that remembers `domain`, the next
/// state remembers no other and the action asks for nothing else.
pub proof fn lemma_step_keeps_domain(
    state: TunnelStateView,
    event: TunnelEventView,
    domain: Seq<char>,
)
    requires
        state_fits(state, domain),
    ensures
        state_fits(tunnel_step(state, event).0, domain),
        action_fits(tunnel_step(state, event).1, domain),
{
}

/// From a state that remembers `domain` on, every action fits that domain.
pub proof fn lemma_run_from_keeps_domain(
    state: TunnelStateView,
    events: Seq<TunnelEventView>,
    domain: Seq<char>,
)
    requires
        state_fits(state, domain),
    ensures
        state_fits(tunnel_run_from(state, events).0, domain),
        forall|i: int|
            0 <= i < tunnel_run_from(state, events).1.len() ==> action_fits(
                #[trigger] tunnel_run_from(state, events).1[i],
                domain,
            ),
    decreases events.len(),
{
    if events.len() > 0 {
        let (next, action) = tunnel_step(state, events.first());
        let rest = tunnel_run_from(next, events.drop_first()).1;
        let actions = tunnel_run_from(state, events).1;
        lemma_step_keeps_domain(state, events.first(), domain);
        lemma_run_from_keeps_domain(next, events.drop_first(), domain);
        assert(actions =~= seq![action] + rest);
        assert forall|i: int| 0 <= i < actions.len() implies action_fits(
            #[trigger] actions[i],
            domain,
        ) by {
            if i > 0 {
                assert(actions[i] == rest[i - 1]);
            }
        }
    }
}

/// Everything that a run asks for follows from the domain that the tunnel
/// named: the registry and the alias directory are asked for the identity of
/// that domain, the handshake request is the frame of that domain, the
/// connection goes to the cluster port under the cluster's server name, and
/// the waits and reads are bounded by the constants of the protocol.
pub proof fn lemma_actions_follow_domain(
    context: TunnelContext,
    domain: Seq<char>,
    later: Seq<TunnelEventView>,
)
    ensures
        ({
            let events = seq![TunnelEventView::Ready(domain)] + later;
            let actions = tunnel_run(context, events).1;
            &&& actions.len() == events.len() + 1
            &&& forall|i: int| 0 <= i < actions.len() ==> action_fits(#[trigger] actions[i], domain)
        }),
{
    let ready = TunnelEventView::Ready(domain);
    let events = seq![ready] + later;
    let (state, first) = tunnel_start(context);
    let (next, action) = tunnel_step(state, ready);
    let rest = tunnel_run_from(next, later).1;
    let actions = tunnel_run(context, events).1;
    assert(events.first() == ready);
    assert(events.drop_first() =~= later);
    lemma_run_len(next, later);
    lemma_run_from_keeps_domain(next, later, domain);
    assert(actions =~= seq![first, action] + rest);
    assert forall|i: int| 0 <= i < actions.len() implies action_fits(
        #[trigger] actions[i],
        domain,
    ) by {
        if i > 1 {
            assert(actions[i] == rest[i - 2]);
        }
    }
}

/// The relay starts on one occasion only: the routing waits for the response,
/// and the bytes read are within the allowed length and start with a response
/// that reports success. The relay is then handed what was read behind the
/// response: the bytes read are the frame of the response followed by the
/// bytes that the relay starts with.
pub proof fn lemma_relay_needs_success(state: TunnelStateView, event: TunnelEventView)
    requires
        tunnel_step(state, event).1 matches TunnelActionView::Cluster(
            ClusterActionView::Relay { .. },
        ),
    ensures
        state == TunnelStateView::OverCluster(ClusterStateView::ReadingResponse),
        event matches TunnelEventView::Cluster(ClusterEventView::ResponseReceived(bytes)) && {
            let accepted = ClusterTunnelResponse { success: true };
            &&& bytes.len() <= MAX_RESPONSE_FRAME
            &&& spec_decode_response(bytes) == Ok::<ClusterTunnelResponse, DecodeError>(accepted)
            &&& tunnel_step(state, event).1 == TunnelActionView::Cluster(
                ClusterActionView::Relay { early: behind_response(bytes) },
            )
            &&& bytes == spec_encode_response(accepted) + behind_response(bytes)
        },
{
    match event {
        TunnelEventView::Cluster(ClusterEventView::ResponseReceived(bytes)) => {
            if spec_decode_response(bytes) is Ok {
                lemma_response_splits(bytes);
            }
        },
        _ => {},
    }
}

/// A connection is attempted on one occasion only: the routing waits for the
/// alias directory, and the directory names the node that is connected to.
pub proof fn lemma_connect_needs_alias(state: TunnelStateView, event: TunnelEventView)
    requires
        tunnel_step(state, event).1 matches TunnelActionView::Cluster(
            ClusterActionView::Connect { .. },
        ),
    ensures
        state matches TunnelStateView::OverCluster(ClusterStateView::FindingAlias { .. }),
        event matches TunnelEventView::Cluster(ClusterEventView::AliasFound(node))
            && tunnel_step(state, event).1 == TunnelActionView::Cluster(
            ClusterActionView::Connect {
                node,
                port: CLUSTER_PORT,
                server_name: CLUSTER_SERVER_NAME@,
            },
        ),
{
}

/// In every run, a relay that starts answers a response that reports
/// success, and starts with every byte that was read behind that response, in
/// order: none of them is lost and none is changed.
pub proof fn lemma_relay_follows_success(
    context: TunnelContext,
    events: Seq<TunnelEventView>,
    i: int,
)
    requires
        0 <= i < events.len(),
        tunnel_run(context, events).1[i + 1] matches TunnelActionView::Cluster(
            ClusterActionView::Relay { .. },
        ),
    ensures
        events[i] matches TunnelEventView::Cluster(ClusterEventView::ResponseReceived(bytes)) && {
            let accepted = ClusterTunnelResponse { success: true };
            &&& bytes.len() <= MAX_RESPONSE_FRAME
            &&& spec_decode_response(bytes) == Ok::<ClusterTunnelResponse, DecodeError>(accepted)
            &&& tunnel_run(context, events).1[i + 1] == TunnelActionView::Cluster(
                ClusterActionView::Relay { early: behind_response(bytes) },
            )
            &&& bytes == spec_encode_response(accepted) + behind_response(bytes)
        },
{
    let (state, first) = tunnel_start(context);
    let rest = tunnel_run_from(state, events).1;
    lemma_run_index(state, events, i);
    assert(tunnel_run(context, events).1 =~= seq![first] + rest);
    assert(tunnel_run(context, events).1[i + 1] == rest[i]);
    lemma_relay_needs_success(tunnel_run_from(state, events.take(i)).0, events[i]);
}

/// In every run, a connection that is attempted goes to the node that the
/// alias directory named just before.
pub proof fn lemma_connect_follows_alias(
    context: TunnelContext,
    events: Seq<TunnelEventView>,
    i: int,
)
    requires
        0 <= i < events.len(),
        tunnel_run(context, events).1[i + 1] matches TunnelActionView::Cluster(
            ClusterActionView::Connect { .. },
        ),
    ensures
        events[i] matches TunnelEventView::Cluster(ClusterEventView::AliasFound(node))
            && tunnel_run(context, events).1[i + 1] == TunnelActionView::Cluster(
            ClusterActionView::Connect {
                node,
                port: CLUSTER_PORT,
                server_name: CLUSTER_SERVER_NAME@,
            },
        ),
{
    let (state, first) = tunnel_start(context);
    let rest = tunnel_run_from(state, events).1;
    lemma_run_index(state, events, i);
    assert(tunnel_run(context, events).1 =~= seq![first] + rest);
    assert(tunnel_run(context, events).1[i + 1] == rest[i]);
    lemma_connect_needs_alias(tunnel_run_from(state, events.take(i)).0, events[i]);
}

/// Whatever was held, a run that has taken at least one step and is over
/// holds nothing.
pub proof fn lemma_holdings_from_terminal(
    holdings: Holdings,
    state: TunnelStateView,
    events: Seq<TunnelEventView>,
)
    requires
        events.len() > 0,
        tunnel_run_from(state, events).0.is_terminal(),
    ensures
        holdings_from(holdings, state, events) == no_holdings(),
    decreases events.len(),
{
    let (next, action) = tunnel_step(state, events.first());
    let after = release(acquire(holdings, events.first()), action);
    if events.len() == 1 {
        assert(events.drop_first().len() == 0);
        assert(tunnel_run_from(next, events.drop_first()).0 == next);
        assert(holdings_from(after, next, events.drop_first()) == after);
        lemma_step_advances(state, events.first());
    } else {
        lemma_holdings_from_terminal(after, next, events.drop_first());
    }
}

/// Cleanup: in every run that has reached `Rejected` or `Closed`, nothing is
/// held any more. The pending tunnel, the connection and the stream are each
/// released or handed on, whichever way the end was reached.
pub proof fn lemma_terminal_holds_nothing(context: TunnelContext, events: Seq<TunnelEventView>)
    requires
        tunnel_run(context, events).0.is_terminal(),
    ensures
        tunnel_holdings(context, events) == no_holdings(),
{
    let state = tunnel_start(context).0;
    if events.len() > 0 {
        lemma_holdings_from_terminal(
            Holdings { tunnel: true, connection: false, stream: false },
            state,
            events,
        );
    }
}

/// Timeout: a tunnel that is not ready within [`READY_TIMEOUT_SECS`] seconds
/// is rejected. Nothing is ever looked up or connected for it, and nothing of
/// it is held afterwards.
pub proof fn lemma_timeout_rejects(context: TunnelContext, later: Seq<TunnelEventView>)
    ensures
        ({
            let events = seq![TunnelEventView::ReadyTimeout] + later;
            let (state, actions) = tunnel_run(context, events);
            &&& actions.len() == events.len() + 1
            &&& actions[0] == TunnelActionView::AwaitReady { timeout_secs: 5 }
            &&& state == TunnelStateView::Rejected(RejectReason::ReadyTimeout)
            &&& forall|i: int|
                1 <= i < actions.len() ==> #[trigger] actions[i] == TunnelActionView::Release
            &&& tunnel_holdings(context, events) == no_holdings()
        }),
{
    let timeout = TunnelEventView::ReadyTimeout;
    let events = seq![timeout] + later;
    let (start, first) = tunnel_start(context);
    let (next, action) = tunnel_step(start, timeout);
    let rest = tunnel_run_from(next, later).1;
    let actions = tunnel_run(context, events).1;
    assert(events.first() == timeout);
    assert(events.drop_first() =~= later);
    lemma_terminal_is_final(next, later);
    assert(actions =~= seq![first, action] + rest);
    assert forall|i: int| 1 <= i < actions.len() implies #[trigger] actions[i]
        == TunnelActionView::Release by {
        if i > 1 {
            assert(actions[i] == rest[i - 2]);
        }
    }
    lemma_terminal_holds_nothing(context, events);
}

/// A run over two events and more, taken apart: the two steps, then the run
/// over the rest.
proof fn lemma_run_two(
    context: TunnelContext,
    e1: TunnelEventView,
    e2: TunnelEventView,
    later: Seq<TunnelEventView>,
)
    ensures
        ({
            let (start, first) = tunnel_start(context);
            let (s1, a1) = tunnel_step(start, e1);
            let (s2, a2) = tunnel_step(s1, e2);
            let (last, rest) = tunnel_run_from(s2, later);
            &&& tunnel_run(context, seq![e1, e2] + later).0 == last
            &&& tunnel_run(context, seq![e1, e2] + later).1 =~= seq![first, a1, a2] + rest
            &&& rest.len() == later.len()
        }),
{
    let (start, first) = tunnel_start(context);
    let (s1, a1) = tunnel_step(start, e1);
    let (s2, a2) = tunnel_step(s1, e2);
    let head = seq![e1, e2];
    let empty = Seq::<TunnelEventView>::empty();
    assert(tunnel_run_from(s2, empty) == (s2, Seq::<TunnelActionView>::empty()));
    assert(seq![e2].first() == e2 && seq![e2].drop_first() =~= empty);
    assert(tunnel_run_from(s1, seq![e2]).0 == s2);
    assert(tunnel_run_from(s1, seq![e2]).1 =~= seq![a2]);
    assert(head.first() == e1 && head.drop_first() =~= seq![e2]);
    assert(tunnel_run_from(start, head).0 == s2);
    assert(tunnel_run_from(start, head).1 =~= seq![a1, a2]);
    lemma_run_split(start, head, later);
    lemma_run_len(s2, later);
}

/// A run over three events and more, taken apart: the three steps, then the
/// run over the rest.
proof fn lemma_run_three(
    context: TunnelContext,
    e1: TunnelEventView,
    e2: TunnelEventView,
    e3: TunnelEventView,
    later: Seq<TunnelEventView>,
)
    ensures
        ({
            let (start, first) = tunnel_start(context);
            let (s1, a1) = tunnel_step(start, e1);
            let (s2, a2) = tunnel_step(s1, e2);
            let (s3, a3) = tunnel_step(s2, e3);
            let (last, rest) = tunnel_run_from(s3, later);
            &&& tunnel_run(context, seq![e1, e2, e3] + later).0 == last
            &&& tunnel_run(context, seq![e1, e2, e3] + later).1 =~= seq![first, a1, a2, a3] + rest
            &&& rest.len() == later.len()
        }),
{
    let (start, first) = tunnel_start(context);
    let (s1, a1) = tunnel_step(start, e1);
    let (s2, a2) = tunnel_step(s1, e2);
    let (s3, a3) = tunnel_step(s2, e3);
    let tail = seq![e3] + later;
    let rest = tunnel_run_from(s3, later).1;
    lemma_run_two(context, e1, e2, tail);
    assert(seq![e1, e2, e3] + later =~= seq![e1, e2] + tail);
    assert(tail.first() == e3 && tail.drop_first() =~= later);
    assert(tunnel_run_from(s2, tail).1 =~= seq![a3] + rest);
    assert(seq![first, a1, a2] + (seq![a3] + rest) =~= seq![first, a1, a2, a3] + rest);
    lemma_run_len(s3, later);
}

/// Local hit: when the registry holds an agent for the domain, the tunnel is
/// handed to that agent, and the run never asks anything of the cluster: no
/// alias lookup, no connection, no relay. This holds whatever the driver
/// reports after the lookup.
pub proof fn lemma_local_hit_is_handed_off<S>(
    context: TunnelContext,
    agents: Map<u64, S>,
    domain: Seq<char>,
    later: Seq<TunnelEventView>,
)
    requires
        agents.contains_key(spec_home_id(domain)),
    ensures
        ({
            let identity = spec_home_id(domain);
            let events = seq![TunnelEventView::Ready(domain), lookup_event(agents, identity)]
                + later;
            let (state, actions) = tunnel_run(context, events);
            &&& actions.len() == events.len() + 1
            &&& actions[1] == TunnelActionView::LookupAgent { identity }
            &&& actions[2] == TunnelActionView::HandOff
            &&& forall|i: int| 0 <= i < actions.len() ==> !(#[trigger] actions[i] is Cluster)
            &&& forall|i: int|
                3 <= i < actions.len() ==> #[trigger] actions[i] == TunnelActionView::Release
            &&& later.len() == 0 ==> state == TunnelStateView::HandingOff
            &&& later.len() > 0 ==> state.is_terminal()
            &&& later.len() > 0 && later[0] == TunnelEventView::HandedOff ==> state
                == TunnelStateView::Closed
        }),
{
    let identity = spec_home_id(domain);
    let ready = TunnelEventView::Ready(domain);
    let hit = lookup_event(agents, identity);
    let events = seq![ready, hit] + later;
    let (start, first) = tunnel_start(context);
    let (s1, a1) = tunnel_step(start, ready);
    let (s2, a2) = tunnel_step(s1, hit);
    lemma_run_two(context, ready, hit, later);
    let (last, rest) = tunnel_run_from(s2, later);
    let actions = tunnel_run(context, events).1;
    if later.len() > 0 {
        let (s3, a3) = tunnel_step(s2, later.first());
        lemma_terminal_is_final(s3, later.drop_first());
        let tail = tunnel_run_from(s3, later.drop_first()).1;
        assert(rest =~= seq![a3] + tail);
        assert forall|i: int| 0 <= i < rest.len() implies #[trigger] rest[i]
            == TunnelActionView::Release by {
            if i > 0 {
                assert(rest[i] == tail[i - 1]);
            }
        }
    }
    assert forall|i: int| 3 <= i < actions.len() implies #[trigger] actions[i]
        == TunnelActionView::Release by {
        assert(actions[i] == rest[i - 3]);
    }
    assert forall|i: int| 0 <= i < actions.len() implies !(#[trigger] actions[i] is Cluster) by {
        if i >= 3 {
            assert(actions[i] == TunnelActionView::Release);
        }
    }
}


/// Agents and tunnels meet under one key: the identity that an agent for
/// `domain` is registered under is the identity that a tunnel for `domain` is
/// looked up under. Once the agent's registration is carried out, a tunnel for
/// its domain is handed to it, with the handle it registered.
pub proof fn lemma_registered_agent_receives_tunnel<S>(
    context: TunnelContext,
    registry: RegistryView<S>,
    sender: S,
    domain: Seq<char>,
    later: Seq<TunnelEventView>,
)
    requires
        registry.has_ticket_left(),
    ensures
        ({
            let identity = spec_home_id(domain);
            let after = registry.register(identity, sender);
            let events = seq![
                TunnelEventView::Ready(domain),
                lookup_event(after.entries, identity),
            ] + later;
            let actions = tunnel_run(context, events).1;
            &&& agent_start(identity).1 == AgentAction::Register { identity }
            &&& after.lookup(identity) == Some(sender)
            &&& actions.len() == events.len() + 1
            &&& actions[1] == TunnelActionView::LookupAgent { identity }
            &&& actions[2] == TunnelActionView::HandOff
        }),
{
    let identity = spec_home_id(domain);
    lemma_local_hit_is_handed_off(
        context,
        registry.register(identity, sender).entries,
        domain,
        later,
    );
}

/// Alias not found: when neither the registry nor the alias directory knows
/// the domain, the tunnel is rejected for that reason. No connection is ever
/// attempted: after the alias lookup the run hands out nothing but releases.
pub proof fn lemma_alias_not_found_rejects<S>(
    agents: Map<u64, S>,
    domain: Seq<char>,
    later: Seq<TunnelEventView>,
)
    requires
        !agents.contains_key(spec_home_id(domain)),
    ensures
        ({
            let identity = spec_home_id(domain);
            let events = seq![
                TunnelEventView::Ready(domain),
                lookup_event(agents, identity),
                TunnelEventView::Cluster(ClusterEventView::AliasNotFound),
            ] + later;
            let (state, actions) = tunnel_run(TunnelContext::Local, events);
            &&& actions.len() == events.len() + 1
            &&& actions[2] == TunnelActionView::Cluster(ClusterActionView::FindAlias { identity })
            &&& state == TunnelStateView::Rejected(
                RejectReason::Cluster(ClusterError::AliasNotFound),
            )
            &&& forall|i: int|
                3 <= i < actions.len() ==> #[trigger] actions[i] == TunnelActionView::Release
            &&& forall|i: int|
                0 <= i < actions.len() ==> !(#[trigger] actions[i] matches TunnelActionView::Cluster(
                    ClusterActionView::Connect { .. },
                ))
        }),
{
    let identity = spec_home_id(domain);
    let e1 = TunnelEventView::Ready(domain);
    let e2 = lookup_event(agents, identity);
    let e3 = TunnelEventView::Cluster(ClusterEventView::AliasNotFound);
    let events = seq![e1, e2, e3] + later;
    let (start, first) = tunnel_start(TunnelContext::Local);
    let (s1, a1) = tunnel_step(start, e1);
    let (s2, a2) = tunnel_step(s1, e2);
    let (s3, a3) = tunnel_step(s2, e3);
    let rest = tunnel_run_from(s3, later).1;
    let actions = tunnel_run(TunnelContext::Local, events).1;
    lemma_run_three(TunnelContext::Local, e1, e2, e3, later);
    lemma_terminal_is_final(s3, later);
    assert forall|i: int| 3 <= i < actions.len() implies #[trigger] actions[i]
        == TunnelActionView::Release by {
        if i > 3 {
            assert(actions[i] == rest[i - 4]);
        }
    }
}

/// Cluster fallback, the request: when the registry has no agent for the
/// domain and the alias directory names a node, the run connects to that node
/// on the cluster port, opens a stream, and writes the request frame of the
/// domain. It writes a request at that point and at no other.
pub proof fn lemma_fallback_sends_one_request<S>(
    agents: Map<u64, S>,
    domain: Seq<char>,
    node: u32,
    later: Seq<TunnelEventView>,
)
    requires
        !agents.contains_key(spec_home_id(domain)),
    ensures
        ({
            let identity = spec_home_id(domain);
            let events = seq![
                TunnelEventView::Ready(domain),
                lookup_event(agents, identity),
                TunnelEventView::Cluster(ClusterEventView::AliasFound(node)),
            ] + (seq![
                TunnelEventView::Cluster(ClusterEventView::Connected),
                TunnelEventView::Cluster(ClusterEventView::StreamOpened),
            ] + later);
            let actions = tunnel_run(TunnelContext::Local, events).1;
            &&& actions.len() == events.len() + 1
            &&& actions[2] == TunnelActionView::Cluster(ClusterActionView::FindAlias { identity })
            &&& actions[3] == TunnelActionView::Cluster(
                ClusterActionView::Connect {
                    node,
                    port: CLUSTER_PORT,
                    server_name: CLUSTER_SERVER_NAME@,
                },
            )
            &&& actions[4] == TunnelActionView::Cluster(ClusterActionView::OpenStream)
            &&& actions[5] == TunnelActionView::Cluster(
                ClusterActionView::WriteRequest { bytes: spec_encode_request(domain) },
            )
            &&& forall|i: int|
                0 <= i < actions.len() && i != 5 ==> !(#[trigger] actions[i] matches TunnelActionView::Cluster(
                    ClusterActionView::WriteRequest { .. },
                ))
        }),
{
    let identity = spec_home_id(domain);
    let e1 = TunnelEventView::Ready(domain);
    let e2 = lookup_event(agents, identity);
    let e3 = TunnelEventView::Cluster(ClusterEventView::AliasFound(node));
    let e4 = TunnelEventView::Cluster(ClusterEventView::Connected);
    let e5 = TunnelEventView::Cluster(ClusterEventView::StreamOpened);
    let tail = seq![e4, e5] + later;
    let events = seq![e1, e2, e3] + tail;
    let (start, first) = tunnel_start(TunnelContext::Local);
    let (s1, a1) = tunnel_step(start, e1);
    let (s2, a2) = tunnel_step(s1, e2);
    let (s3, a3) = tunnel_step(s2, e3);
    let (s4, a4) = tunnel_step(s3, e4);
    let (s5, a5) = tunnel_step(s4, e5);
    let actions = tunnel_run(TunnelContext::Local, events).1;
    lemma_run_three(TunnelContext::Local, e1, e2, e3, tail);
    let rest = tunnel_run_from(s3, tail).1;
    assert(tail.first() == e4);
    assert(tail.drop_first() =~= seq![e5] + later);
    assert((seq![e5] + later).first() == e5);
    assert((seq![e5] + later).drop_first() =~= later);
    let rest5 = tunnel_run_from(s5, later).1;
    assert(tunnel_run_from(s4, seq![e5] + later).1 =~= seq![a5] + rest5);
    assert(rest =~= seq![a4] + tunnel_run_from(s4, seq![e5] + later).1);
    assert(rest =~= seq![a4, a5] + rest5);
    assert(actions =~= seq![first, a1, a2, a3, a4, a5] + rest5);
    lemma_actions_never_repeat(TunnelContext::Local, events);
    assert(action_progress(actions[5]) == 5);
    assert forall|i: int| 0 <= i < actions.len() && i != 5 implies !(
    #[trigger] actions[i] matches TunnelActionView::Cluster(
        ClusterActionView::WriteRequest { .. },
    )) by {
        if i < 5 {
            assert(action_progress(actions[i]) < action_progress(actions[5]) || actions[5]
                == TunnelActionView::Release);
        } else {
            assert(action_progress(actions[5]) < action_progress(actions[i]) || actions[i]
                == TunnelActionView::Release);
        }
    }
}

/// Cluster fallback, the answer: while the routing waits for the response,
/// bytes within the allowed length that start with a response reporting
/// success start the relay, which is handed the bytes behind the response,
/// and the end of the relay closes the routing, however the relay ended.
pub proof fn lemma_accepted_response_relays(bytes: Seq<u8>, end: RelayEnd)
    requires
        bytes.len() <= MAX_RESPONSE_FRAME,
        spec_decode_response(bytes) == Ok::<ClusterTunnelResponse, DecodeError>(
            ClusterTunnelResponse { success: true },
        ),
    ensures
        ({
            let waiting = TunnelStateView::OverCluster(ClusterStateView::ReadingResponse);
            let relaying = TunnelStateView::OverCluster(ClusterStateView::Relaying);
            &&& tunnel_step(
                waiting,
                TunnelEventView::Cluster(ClusterEventView::ResponseReceived(bytes)),
            ) == (
                relaying,
                TunnelActionView::Cluster(
                    ClusterActionView::Relay { early: behind_response(bytes) },
                ),
            )
            &&& tunnel_step(relaying, TunnelEventView::Cluster(ClusterEventView::RelayEnded(end)))
                == (TunnelStateView::Closed, TunnelActionView::Release)
        }),
{
}

/// Cluster fallback, the refusal: while the routing waits for the response,
/// bytes that start with a response reporting refusal reject the tunnel, and
/// no relay is ever started: from then on the run hands out nothing but
/// releases.
pub proof fn lemma_refused_response_rejects(bytes: Seq<u8>, later: Seq<TunnelEventView>)
    requires
        bytes.len() <= MAX_RESPONSE_FRAME,
        spec_decode_response(bytes) == Ok::<ClusterTunnelResponse, DecodeError>(
            ClusterTunnelResponse { success: false },
        ),
    ensures
        ({
            let waiting = TunnelStateView::OverCluster(ClusterStateView::ReadingResponse);
            let refusal = TunnelEventView::Cluster(ClusterEventView::ResponseReceived(bytes));
            let (state, actions) = tunnel_run_from(waiting, seq![refusal] + later);
            &&& state == TunnelStateView::Rejected(
                RejectReason::Cluster(ClusterError::ResponseNotSuccess),
            )
            &&& actions.len() == later.len() + 1
            &&& forall|i: int|
                0 <= i < actions.len() ==> #[trigger] actions[i] == TunnelActionView::Release
        }),
{
    let waiting = TunnelStateView::OverCluster(ClusterStateView::ReadingResponse);
    let refusal = TunnelEventView::Cluster(ClusterEventView::ResponseReceived(bytes));
    let events = seq![refusal] + later;
    let (next, action) = tunnel_step(waiting, refusal);
    assert(events.first() == refusal);
    assert(events.drop_first() =~= later);
    lemma_terminal_is_final(next, later);
    let rest = tunnel_run_from(next, later).1;
    let actions = tunnel_run_from(waiting, events).1;
    assert(actions =~= seq![action] + rest);
    assert forall|i: int| 0 <= i < actions.len() implies #[trigger] actions[i]
        == TunnelActionView::Release by {
        if i > 0 {
            assert(actions[i] == rest[i - 1]);
        }
    }
}

/// A tunnel that came from the cluster is never sent back into it: when the
/// registry has no agent for its domain, it is rejected at once.
pub proof fn lemma_cluster_tunnel_is_not_relayed<S>(
    agents: Map<u64, S>,
    domain: Seq<char>,
    later: Seq<TunnelEventView>,
)
    requires
        !agents.contains_key(spec_home_id(domain)),
    ensures
        ({
            let events = seq![
                TunnelEventView::Ready(domain),
                lookup_event(agents, spec_home_id(domain)),
            ] + later;
            let (state, actions) = tunnel_run(TunnelContext::Cluster, events);
            &&& actions.len() == events.len() + 1
            &&& state == TunnelStateView::Rejected(RejectReason::AgentNotFound)
            &&& forall|i: int| 0 <= i < actions.len() ==> !(#[trigger] actions[i] is Cluster)
        }),
{
    let ready = TunnelEventView::Ready(domain);
    let miss = lookup_event(agents, spec_home_id(domain));
    let events = seq![ready, miss] + later;
    let (start, first) = tunnel_start(TunnelContext::Cluster);
    let (s1, a1) = tunnel_step(start, ready);
    let (s2, a2) = tunnel_step(s1, miss);
    lemma_run_two(TunnelContext::Cluster, ready, miss, later);
    lemma_terminal_is_final(s2, later);
    let rest = tunnel_run_from(s2, later).1;
    let actions = tunnel_run(TunnelContext::Cluster, events).1;
    assert forall|i: int| 0 <= i < actions.len() implies !(#[trigger] actions[i] is Cluster) by {
        if i >= 3 {
            assert(actions[i] == rest[i - 3]);
        }
    }
}

} // verus!
