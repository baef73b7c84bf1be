//! The life of one agent on this node.
//!
//! An agent attaches, is entered into the registry and published in the
//! cluster's alias directory, then runs one unit of work after another until
//! one fails; it is then removed from the registry and withdrawn from the
//! directory. A failed unit of work is never retried: it counts as the loss of
//! the connection.
//!
//! An agent that reconnects replaces the entry of its old connection. The old
//! worker finds that out when it ends: its registration is no longer entered,
//! and it leaves without touching the registry entry or the alias, which are
//! its successor's by then.
//!
//! The worker that owns the connection drives this machine. It performs the
//! [`AgentAction`] it is given, reports how that went as an [`AgentEvent`], and
//! is told what to do next, until the action is [`AgentAction::Finish`].

use crate::identity::{home_id_from_domain, spec_home_id};
use crate::registry::{AgentRegistry, RegistryView};
use vstd::prelude::*;

verus! {

/// Where an agent stands in its life. `Registering` and `Publishing` make up
/// its start, `Unregistering` and `Withdrawing` its exit.
#[derive(Clone, Copy, Debug, PartialEq, Eq, Structural)]
pub enum AgentState {
    /// The agent is being entered into the registry.
    Registering { identity: u64 },
    /// The agent is entered with `ticket` and is being published in the alias
    /// directory.
    Publishing { identity: u64, ticket: u64 },
    /// The agent is served: one unit of work is under way. `published` tells
    /// whether other nodes can find it; without it the agent is reachable on
    /// this node only.
    Running { identity: u64, ticket: u64, published: bool },
    /// The agent's registration is being taken back.
    Unregistering { identity: u64, ticket: u64 },
    /// The agent is being withdrawn from the alias directory.
    Withdrawing { identity: u64 },
    /// Nothing of the agent is left on this node.
    Exited,
}

/// How the action last handed out went.
#[derive(Clone, Copy, Debug, PartialEq, Eq, Structural)]
pub enum AgentEvent {
    /// The agent was registered and given `ticket`.
    Registered { ticket: u64 },
    /// The registration was taken back. `own` tells whether the agent's own
    /// entry was still entered and is removed now; it is not when a later
    /// registration has replaced it.
    Unregistered { own: bool },
    /// The action was carried out.
    Done,
    /// The action failed.
    Failed,
}

/// What the worker has to do next.
#[derive(Clone, Copy, Debug, PartialEq, Eq, Structural)]
pub enum AgentAction {
    /// Enter the agent's hand-off handle into the registry under `identity`.
    Register { identity: u64 },
    /// Publish `identity` in the alias directory.
    PublishAlias { identity: u64 },
    /// Run one unit of work on the agent's connection.
    RunIteration,
    /// Take the registration of `identity` with `ticket` back.
    Unregister { identity: u64, ticket: u64 },
    /// Withdraw `identity` from the alias directory.
    WithdrawAlias { identity: u64 },
    /// Stop: the agent is gone.
    Finish,
}

/// State and first action of an agent with the given identity.
pub open spec fn agent_start(identity: u64) -> (AgentState, AgentAction) {
    (AgentState::Registering { identity }, AgentAction::Register { identity })
}

/// The transition of the agent's life: the state after `event` arrives in
/// `state`, and the action to perform then.
pub open spec fn agent_step(state: AgentState, event: AgentEvent) -> (AgentState, AgentAction) {
    match state {
        AgentState::Registering { identity } => match event {
            AgentEvent::Registered { ticket } => (
                AgentState::Publishing { identity, ticket },
                AgentAction::PublishAlias { identity },
            ),
            _ => (AgentState::Exited, AgentAction::Finish),
        },
        AgentState::Publishing { identity, ticket } => (
            AgentState::Running { identity, ticket, published: event == AgentEvent::Done },
            AgentAction::RunIteration,
        ),
        AgentState::Running { identity, ticket, published } => match event {
            AgentEvent::Done => (
                AgentState::Running { identity, ticket, published },
                AgentAction::RunIteration,
            ),
            _ => (
                AgentState::Unregistering { identity, ticket },
                AgentAction::Unregister { identity, ticket },
            ),
        },
        AgentState::Unregistering { identity, ticket } => match event {
            AgentEvent::Unregistered { own: true } => (
                AgentState::Withdrawing { identity },
                AgentAction::WithdrawAlias { identity },
            ),
            _ => (AgentState::Exited, AgentAction::Finish),
        },
        AgentState::Withdrawing { identity } => (AgentState::Exited, AgentAction::Finish),
        AgentState::Exited => (AgentState::Exited, AgentAction::Finish),
    }
}

impl AgentState {
    /// The identity that the agent is known under, while it is known.
    pub open spec fn spec_identity(self) -> Option<u64> {
        match self {
            AgentState::Registering { identity } => Some(identity),
            AgentState::Publishing { identity, .. } => Some(identity),
            AgentState::Running { identity, .. } => Some(identity),
            AgentState::Unregistering { identity, .. } => Some(identity),
            AgentState::Withdrawing { identity } => Some(identity),
            AgentState::Exited => None,
        }
    }

    /// The identity that the agent is known under, while it is known.
    pub fn identity(&self) -> (identity: Option<u64>)
        ensures
            identity == self.spec_identity(),
    {
        match self {
            AgentState::Registering { identity } => Some(*identity),
            AgentState::Publishing { identity, .. } => Some(*identity),
            AgentState::Running { identity, .. } => Some(*identity),
            AgentState::Unregistering { identity, .. } => Some(*identity),
            AgentState::Withdrawing { identity } => Some(*identity),
            AgentState::Exited => None,
        }
    }

    /// Whether the agent is being served.
    pub fn is_running(&self) -> (running: bool)
        ensures
            running == (*self is Running),
    {
        match self {
            AgentState::Running { .. } => true,
            _ => false,
        }
    }

    /// Whether the agent is gone.
    pub fn is_exited(&self) -> (exited: bool)
        ensures
            exited == (*self is Exited),
    {
        match self {
            AgentState::Exited => true,
            _ => false,
        }
    }
}

/// Starts the life of the agent that serves `domain`: the agent is known under
/// the identity of the domain, and the first thing to do is to register it.
pub fn attach_agent(domain: &str) -> (start: (AgentState, AgentAction))
    ensures
        start == agent_start(spec_home_id(domain@)),
{
    let identity: u64 = home_id_from_domain(domain);
    (AgentState::Registering { identity }, AgentAction::Register { identity })
}

/// What [`AgentAction::Register`] reports when it is performed on `registry`.
pub open spec fn register_event<S>(registry: RegistryView<S>) -> AgentEvent {
    if registry.has_ticket_left() {
        AgentEvent::Registered { ticket: registry.issued as u64 }
    } else {
        AgentEvent::Failed
    }
}

/// What [`AgentAction::Unregister`] reports when it is performed on
/// `registry`.
pub open spec fn unregister_event<S>(
    registry: RegistryView<S>,
    identity: u64,
    ticket: u64,
) -> AgentEvent {
    AgentEvent::Unregistered { own: registry.owns(identity, ticket) }
}

/// Performs [`AgentAction::Register`] on `registry`: enters `sender` under
/// `identity` and reports the ticket of the registration.
pub fn register_agent<S>(registry: &mut AgentRegistry<S>, identity: u64, sender: S) -> (event:
    AgentEvent)
    ensures
        final(registry)@ == old(registry)@.register(identity, sender),
        event == register_event(old(registry)@),
{
    match registry.register(identity, sender) {
        Some(ticket) => AgentEvent::Registered { ticket },
        None => AgentEvent::Failed,
    }
}

/// Performs [`AgentAction::Unregister`] on `registry`: removes the entry of
/// `identity` if the registration with `ticket` made it, and reports whether
/// it did.
pub fn unregister_agent<S>(registry: &mut AgentRegistry<S>, identity: u64, ticket: u64) -> (event:
    AgentEvent)
    ensures
        final(registry)@ == old(registry)@.unregister(identity, ticket),
        event == unregister_event(old(registry)@, identity, ticket),
{
    match registry.unregister(identity, ticket) {
        Some(_) => AgentEvent::Unregistered { own: true },
        None => AgentEvent::Unregistered { own: false },
    }
}

/// Advances the life of an agent by one event.
///
/// `event` tells how the action handed out with `state` went. The result is
/// the agent's next state and the action to perform next.
///
/// * A registered agent is published; if publishing fails it runs all the
///   same, reachable on this node only. An agent that could not be registered
///   is gone at once: nothing of it was entered.
/// * While units of work succeed the agent keeps running; the first that does
///   not ends it.
/// * An agent that ends takes its registration back. If its own entry was
///   still entered, it is then withdrawn from the alias directory, whether or
///   not it had been published with success. If a later registration has
///   replaced it, the entry and the alias are its successor's: the agent is
///   gone without touching them. The alias is withdrawn on the report of the
///   removal alone; any other event at that point ends the agent as well,
///   without a withdrawal.
pub fn run_agent_connection(state: AgentState, event: AgentEvent) -> (next: (
    AgentState,
    AgentAction,
))
    ensures
        next == agent_step(state, event),
{
    match state {
        AgentState::Registering { identity } => match event {
            AgentEvent::Registered { ticket } => (
                AgentState::Publishing { identity, ticket },
                AgentAction::PublishAlias { identity },
            ),
            _ => (AgentState::Exited, AgentAction::Finish),
        },
        AgentState::Publishing { identity, ticket } => {
            let published = match event {
                AgentEvent::Done => true,
                _ => false,
            };
            (AgentState::Running { identity, ticket, published }, AgentAction::RunIteration)
        },
        AgentState::Running { identity, ticket, published } => match event {
            AgentEvent::Done => (
                AgentState::Running { identity, ticket, published },
                AgentAction::RunIteration,
            ),
            _ => (
                AgentState::Unregistering { identity, ticket },
                AgentAction::Unregister { identity, ticket },
            ),
        },
        AgentState::Unregistering { identity, .. } => match event {
            AgentEvent::Unregistered { own } => {
                if own {
                    (AgentState::Withdrawing { identity }, AgentAction::WithdrawAlias { identity })
                } else {
                    (AgentState::Exited, AgentAction::Finish)
                }
            },
            _ => (AgentState::Exited, AgentAction::Finish),
        },
        AgentState::Withdrawing { .. } => (AgentState::Exited, AgentAction::Finish),
        AgentState::Exited => (AgentState::Exited, AgentAction::Finish),
    }
}

/// What a node holds of its agents: the registry, and the identities that it
/// has published in the alias directory.
pub struct Presence<S> {
    pub registry: RegistryView<S>,
    pub published: Set<u64>,
}

/// What a worker brings about when it performs `action`, and what it reports.
///
/// The registry and the alias directory do what they are asked. Whether a
/// publication or a unit of work succeeds is not the worker's to decide:
/// `luck` says how it goes.
pub open spec fn perform<S>(presence: Presence<S>, action: AgentAction, handle: S, luck: bool) -> (
    Presence<S>,
    AgentEvent,
) {
    match action {
        AgentAction::Register { identity } => (
            Presence { registry: presence.registry.register(identity, handle), ..presence },
            register_event(presence.registry),
        ),
        AgentAction::PublishAlias { identity } => if luck {
            (
                Presence { published: presence.published.insert(identity), ..presence },
                AgentEvent::Done,
            )
        } else {
            (presence, AgentEvent::Failed)
        },
        AgentAction::RunIteration => (
            presence,
            if luck {
                AgentEvent::Done
            } else {
                AgentEvent::Failed
            },
        ),
        AgentAction::Unregister { identity, ticket } => (
            Presence { registry: presence.registry.unregister(identity, ticket), ..presence },
            unregister_event(presence.registry, identity, ticket),
        ),
        AgentAction::WithdrawAlias { identity } => (
            Presence { published: presence.published.remove(identity), ..presence },
            AgentEvent::Done,
        ),
        AgentAction::Finish => (presence, AgentEvent::Done),
    }
}

/// The life of an agent that is served on a node: its state, the action that
/// is pending, and the node's presence, after the worker has performed one
/// action for each entry of `lucks`.
pub open spec fn agent_run<S>(identity: u64, handle: S, before: Presence<S>, lucks: Seq<bool>) -> (
    AgentState,
    AgentAction,
    Presence<S>,
)
    decreases lucks.len(),
{
    if lucks.len() == 0 {
        (agent_start(identity).0, agent_start(identity).1, before)
    } else {
        let (state, action, presence) = agent_run(identity, handle, before, lucks.drop_last());
        let (after, event) = perform(presence, action, handle, lucks.last());
        let (next, then) = agent_step(state, event);
        (next, then, after)
    }
}

/// What holds of the presence of an agent at each point of its life, on a
/// node where nothing was entered or published under its identity before and
/// nobody else registers it.
pub open spec fn presence_matches<S>(
    state: AgentState,
    action: AgentAction,
    identity: u64,
    handle: S,
    presence: Presence<S>,
) -> bool {
    &&& presence.registry.wf()
    &&& match state {
        AgentState::Registering { identity: id } => {
            &&& id == identity
            &&& action == AgentAction::Register { identity }
            &&& !presence.registry.entries.contains_key(identity)
            &&& !presence.published.contains(identity)
        },
        AgentState::Publishing { identity: id, ticket } => {
            &&& id == identity
            &&& action == AgentAction::PublishAlias { identity }
            &&& presence.registry.owns(identity, ticket)
            &&& presence.registry.lookup(identity) == Some(handle)
            &&& !presence.published.contains(identity)
        },
        AgentState::Running { identity: id, ticket, published } => {
            &&& id == identity
            &&& action == AgentAction::RunIteration
            &&& presence.registry.owns(identity, ticket)
            &&& presence.registry.lookup(identity) == Some(handle)
            &&& published == presence.published.contains(identity)
        },
        AgentState::Unregistering { identity: id, ticket } => {
            &&& id == identity
            &&& action == AgentAction::Unregister { identity, ticket }
            &&& presence.registry.owns(identity, ticket)
        },
        AgentState::Withdrawing { identity: id } => {
            &&& id == identity
            &&& action == AgentAction::WithdrawAlias { identity }
            &&& !presence.registry.entries.contains_key(identity)
        },
        AgentState::Exited => {
            &&& action == AgentAction::Finish
            &&& !presence.registry.entries.contains_key(identity)
            &&& !presence.published.contains(identity)
        },
    }
}

/// Throughout its life an agent is present as its state says: entered with
/// its own ticket and handle from its registration until it stops running,
/// published while its state says so, and neither entered nor published once
/// it has exited, however its publication and its units of work went.
pub proof fn lemma_presence_follows_state<S>(
    identity: u64,
    handle: S,
    before: Presence<S>,
    lucks: Seq<bool>,
)
    requires
        before.registry.wf(),
        !before.registry.entries.contains_key(identity),
        !before.published.contains(identity),
    ensures
        ({
            let (state, action, presence) = agent_run(identity, handle, before, lucks);
            presence_matches(state, action, identity, handle, presence)
        }),
    decreases lucks.len(),
{
    if lucks.len() > 0 {
        lemma_presence_follows_state(identity, handle, before, lucks.drop_last());
        let (state, action, presence) = agent_run(identity, handle, before, lucks.drop_last());
        let (after, event) = perform(presence, action, handle, lucks.last());
        let (next, then) = agent_step(state, event);
        assert(after.registry.wf());
        assert(presence_matches(next, then, identity, handle, after));
    }
}

/// An agent that has exited has left nothing behind: its identity is neither
/// in the registry nor in the alias directory.
pub proof fn lemma_exit_leaves_nothing<S>(
    identity: u64,
    handle: S,
    before: Presence<S>,
    lucks: Seq<bool>,
)
    requires
        before.registry.wf(),
        !before.registry.entries.contains_key(identity),
        !before.published.contains(identity),
        agent_run(identity, handle, before, lucks).0 is Exited,
    ensures
        !agent_run(identity, handle, before, lucks).2.registry.entries.contains_key(identity),
        !agent_run(identity, handle, before, lucks).2.published.contains(identity),
{
    lemma_presence_follows_state(identity, handle, before, lucks);
}

/// While an agent runs, a lookup of its identity finds its handle.
pub proof fn lemma_running_is_registered<S>(
    identity: u64,
    handle: S,
    before: Presence<S>,
    lucks: Seq<bool>,
)
    requires
        before.registry.wf(),
        !before.registry.entries.contains_key(identity),
        !before.published.contains(identity),
        agent_run(identity, handle, before, lucks).0 is Running,
    ensures
        agent_run(identity, handle, before, lucks).2.registry.lookup(identity) == Some(handle),
{
    lemma_presence_follows_state(identity, handle, before, lucks);
}

/// A failed unit of work ends the agent: it takes its registration back, and
/// if its entry was still its own it is withdrawn and gone two events later.
/// It is not run again.
pub proof fn lemma_failure_is_final(
    identity: u64,
    ticket: u64,
    published: bool,
    withdrawal: AgentEvent,
)
    ensures
        ({
            let running = AgentState::Running { identity, ticket, published };
            let (s1, a1) = agent_step(running, AgentEvent::Failed);
            let (s2, a2) = agent_step(s1, AgentEvent::Unregistered { own: true });
            let (s3, a3) = agent_step(s2, withdrawal);
            &&& a1 == AgentAction::Unregister { identity, ticket }
            &&& a2 == AgentAction::WithdrawAlias { identity }
            &&& a3 == AgentAction::Finish
            &&& s3 == AgentState::Exited
        }),
{
}

/// Once an agent has exited it stays so, and is told to stop.
pub proof fn lemma_exited_is_terminal(event: AgentEvent)
    ensures
        agent_step(AgentState::Exited, event) == (AgentState::Exited, AgentAction::Finish),
{
}

/// The exit of a replaced worker: from the failure of its unit of work to its
/// end, on a node where its identity is entered with another ticket than its
/// own. The result is the worker's last state and action, and the node's
/// presence after its exit.
pub open spec fn replaced_exit<S>(
    presence: Presence<S>,
    identity: u64,
    ticket: u64,
    published: bool,
    handle: S,
) -> (AgentState, AgentAction, Presence<S>) {
    let running = AgentState::Running { identity, ticket, published };
    let (leaving, removal) = agent_step(running, AgentEvent::Failed);
    let (after, report) = perform(presence, removal, handle, true);
    let (last, then) = agent_step(leaving, report);
    (last, then, after)
}

/// A replaced worker leaves its successor alone. When the entry of its
/// identity is no longer its own, a worker whose unit of work fails asks for
/// its own registration to be taken back, learns that it was replaced, and is
/// gone: it never asks for the alias to be withdrawn, and the node's registry
/// and publications are after its exit what they were before.
pub proof fn lemma_replaced_worker_leaves_successor<S>(
    presence: Presence<S>,
    identity: u64,
    ticket: u64,
    published: bool,
    handle: S,
)
    requires
        !presence.registry.owns(identity, ticket),
    ensures
        ({
            let running = AgentState::Running { identity, ticket, published };
            let (last, then, after) = replaced_exit(presence, identity, ticket, published, handle);
            &&& agent_step(running, AgentEvent::Failed).1 == AgentAction::Unregister {
                identity,
                ticket,
            }
            &&& last == AgentState::Exited
            &&& then == AgentAction::Finish
            &&& after == presence
        }),
{
}

/// Replacement survives the exit of the replaced. A first agent registers and
/// publishes an identity; a second agent registers the same identity and
/// replaces it; then the first agent's unit of work fails. After the whole
/// exit of the first, the identity is still entered with the second agent's
/// handle and ticket, and it is still published.
pub proof fn lemma_replacement_survives_exit<S>(
    before: Presence<S>,
    identity: u64,
    first: S,
    second: S,
    published: bool,
)
    requires
        before.registry.wf(),
        before.registry.issued + 2 <= u64::MAX,
    ensures
        ({
            let first_ticket = before.registry.issued as u64;
            let second_ticket = (before.registry.issued + 1) as u64;
            let replaced = Presence {
                registry: before.registry.register(identity, first).register(identity, second),
                published: before.published.insert(identity),
            };
            let (last, then, after) = replaced_exit(
                replaced,
                identity,
                first_ticket,
                published,
                first,
            );
            &&& register_event(before.registry) == AgentEvent::Registered { ticket: first_ticket }
            &&& register_event(before.registry.register(identity, first))
                == AgentEvent::Registered { ticket: second_ticket }
            &&& last == AgentState::Exited
            &&& then == AgentAction::Finish
            &&& after.registry.owns(identity, second_ticket)
            &&& after.registry.lookup(identity) == Some(second)
            &&& after.published.contains(identity)
        }),
{
}

} // verus!
