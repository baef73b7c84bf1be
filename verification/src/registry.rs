//! The registry of the agents attached to this node.
//!
//! The registry maps a domain identity to the hand-off handle of the agent that
//! serves the domain: the sending end of that agent's queue of pending tunnels.
//! It is generic in the handle, which it stores and hands back untouched.
//!
//! A second agent that registers an identity replaces the first, so that an
//! agent can reconnect while its old connection is still dying. Every
//! registration is given a ticket that the registry never gives again, and an
//! entry is removed only against the ticket it was made with: the worker of a
//! replaced agent cannot remove the entry of its successor.
//!
//! The registry is plain data. The program shares one registry behind a
//! reader-writer lock and holds the lock for the length of one call; what many
//! workers do concurrently is then some sequence of the operations below, which
//! is what the laws at the end of this module speak of.

use std::collections::HashMap;
use vstd::prelude::*;

verus! {

/// One entry of the registry: the hand-off handle of an agent, and the ticket
/// of the registration that entered it.
pub struct Registration<S> {
    pub ticket: u64,
    pub sender: S,
}

/// The registry as a mathematical value: its entries by identity, and the
/// number of tickets it has given out.
pub struct RegistryView<S> {
    pub entries: Map<u64, Registration<S>>,
    pub issued: nat,
}

impl<S> RegistryView<S> {
    /// What holds of every registry: it has finitely many entries, the tickets
    /// of its entries are among those it has given out, and these are fewer
    /// than a `u64` can count.
    pub open spec fn wf(self) -> bool {
        &&& self.entries.dom().finite()
        &&& self.issued <= u64::MAX
        &&& forall|identity: u64| #[trigger]
            self.entries.contains_key(identity) ==> self.entries[identity].ticket < self.issued
    }

    /// Whether a registration can still be taken: a ticket is left to give.
    pub open spec fn has_ticket_left(self) -> bool {
        self.issued < u64::MAX
    }

    /// The handle entered under `identity`, if there is one.
    pub open spec fn lookup(self, identity: u64) -> Option<S> {
        if self.entries.contains_key(identity) {
            Some(self.entries[identity].sender)
        } else {
            None
        }
    }

    /// Whether the entry of `identity` is the one that the registration with
    /// `ticket` made.
    pub open spec fn owns(self, identity: u64, ticket: u64) -> bool {
        self.entries.contains_key(identity) && self.entries[identity].ticket == ticket
    }

    /// The registry after `sender` is registered under `identity`: the entry
    /// of `identity` is `sender` with the next ticket. A registry that has no
    /// ticket left stays as it is.
    pub open spec fn register(self, identity: u64, sender: S) -> Self {
        if self.has_ticket_left() {
            RegistryView {
                entries: self.entries.insert(
                    identity,
                    Registration { ticket: self.issued as u64, sender },
                ),
                issued: self.issued + 1,
            }
        } else {
            self
        }
    }

    /// The registry after the registration with `ticket` is taken back: its
    /// entry is removed if it is still entered, and nothing changes if the
    /// identity has no entry or the entry of another registration.
    pub open spec fn unregister(self, identity: u64, ticket: u64) -> Self {
        if self.owns(identity, ticket) {
            RegistryView { entries: self.entries.remove(identity), issued: self.issued }
        } else {
            self
        }
    }
}

/// Maps each registered domain identity to the hand-off handle of its agent.
pub struct AgentRegistry<S> {
    agents: HashMap<u64, Registration<S>>,
    issued: u64,
}

impl<S> View for AgentRegistry<S> {
    type V = RegistryView<S>;

    closed spec fn view(&self) -> RegistryView<S> {
        RegistryView { entries: self.agents@, issued: self.issued as nat }
    }
}

impl<S> AgentRegistry<S> {
    #[verifier::type_invariant]
    spec fn well_formed(&self) -> bool {
        self@.wf()
    }

    /// Creates a registry without entries.
    pub fn new() -> (registry: Self)
        ensures
            registry@.entries == Map::<u64, Registration<S>>::empty(),
            registry@.issued == 0,
            registry@.wf(),
    {
        AgentRegistry { agents: HashMap::new(), issued: 0 }
    }

    /// Enters `sender` under `identity`, in place of any handle entered there
    /// before, and returns the ticket of this registration.
    ///
    /// The ticket is one that the registry has not given before: no entry
    /// carries it. Only a registry that has given out every ticket a `u64` can
    /// count refuses, with `None`, and stays as it is.
    pub fn register(&mut self, identity: u64, sender: S) -> (ticket: Option<u64>)
        ensures
            final(self)@ == old(self)@.register(identity, sender),
            final(self)@.wf(),
            ticket == (if old(self)@.has_ticket_left() {
                Some(old(self)@.issued as u64)
            } else {
                None
            }),
            ticket matches Some(t) ==> final(self)@.owns(identity, t) && forall|other: u64|
                !(#[trigger] old(self)@.owns(other, t)),
    {
        proof {
            use_type_invariant(&*self);
        }
        if self.issued == u64::MAX {
            return None;
        }
        let ticket: u64 = self.issued;
        let ghost before = self.agents@;
        let mut agents = HashMap::new();
        std::mem::swap(&mut agents, &mut self.agents);
        agents.insert(identity, Registration { ticket, sender });
        proof {
            assert forall|id: u64| #[trigger] agents@.contains_key(id) implies agents@[id].ticket
                < ticket + 1 by {
                if id != identity {
                    assert(before.contains_key(id));
                }
            }
        }
        *self = AgentRegistry { agents, issued: ticket + 1 };
        Some(ticket)
    }

    /// The handle entered under `identity`, if there is one.
    pub fn lookup(&self, identity: u64) -> (found: Option<&S>)
        ensures
            found.is_some() == self@.entries.contains_key(identity),
            found matches Some(sender) ==> Some(*sender) == self@.lookup(identity),
            self@.wf(),
    {
        proof {
            use_type_invariant(self);
        }
        match self.agents.get(&identity) {
            Some(entry) => Some(&entry.sender),
            None => None,
        }
    }

    /// Whether a handle is entered under `identity`.
    pub fn contains(&self, identity: u64) -> (present: bool)
        ensures
            present == self@.entries.contains_key(identity),
    {
        self.agents.contains_key(&identity)
    }

    /// Whether the entry of `identity` is the one that the registration with
    /// `ticket` made.
    pub fn owns(&self, identity: u64, ticket: u64) -> (own: bool)
        ensures
            own == self@.owns(identity, ticket),
    {
        match self.agents.get(&identity) {
            Some(entry) => entry.ticket == ticket,
            None => false,
        }
    }

    /// Takes the registration with `ticket` back: removes the entry of
    /// `identity` if that registration made it, and returns its handle.
    ///
    /// Where the identity has no entry, or the entry of a later registration,
    /// the registry stays as it is and the result is `None`.
    pub fn unregister(&mut self, identity: u64, ticket: u64) -> (removed: Option<S>)
        ensures
            final(self)@ == old(self)@.unregister(identity, ticket),
            final(self)@.wf(),
            removed == (if old(self)@.owns(identity, ticket) {
                old(self)@.lookup(identity)
            } else {
                None
            }),
    {
        proof {
            use_type_invariant(&*self);
        }
        if !self.owns(identity, ticket) {
            return None;
        }
        let issued: u64 = self.issued;
        let ghost before = self.agents@;
        let mut agents = HashMap::new();
        std::mem::swap(&mut agents, &mut self.agents);
        let removed = agents.remove(&identity);
        proof {
            assert forall|id: u64| #[trigger] agents@.contains_key(id) implies agents@[id].ticket
                < issued by {
                assert(before.contains_key(id));
            }
        }
        *self = AgentRegistry { agents, issued };
        match removed {
            Some(entry) => Some(entry.sender),
            None => None,
        }
    }

    /// The number of registered agents.
    pub fn len(&self) -> (count: usize)
        ensures
            count == self@.entries.len(),
            self@.entries.dom().finite(),
    {
        self.agents.len()
    }

    /// Whether no agent is registered.
    pub fn is_empty(&self) -> (empty: bool)
        ensures
            empty == (self@.entries.len() == 0),
            self@.entries.dom().finite(),
    {
        self.agents.len() == 0
    }
}

/// One change to the registry.
pub enum RegistryOp<S> {
    /// A registration of this handle under this identity.
    Register(u64, S),
    /// The taking back of the registration of this identity with this ticket.
    Unregister(u64, u64),
}

/// The registry after `op`.
pub open spec fn apply_op<S>(registry: RegistryView<S>, op: RegistryOp<S>) -> RegistryView<S> {
    match op {
        RegistryOp::Register(identity, sender) => registry.register(identity, sender),
        RegistryOp::Unregister(identity, ticket) => registry.unregister(identity, ticket),
    }
}

/// The registry after the changes `ops`, applied first to last.
pub open spec fn apply_ops<S>(registry: RegistryView<S>, ops: Seq<RegistryOp<S>>) -> RegistryView<
    S,
>
    decreases ops.len(),
{
    if ops.len() == 0 {
        registry
    } else {
        apply_op(apply_ops(registry, ops.drop_last()), ops.last())
    }
}

/// Whether `op` registers `identity`.
pub open spec fn registers<S>(op: RegistryOp<S>, identity: u64) -> bool {
    op matches RegistryOp::Register(id, _) && id == identity
}

/// Whether `op` takes back the registration of `identity` with `ticket`.
pub open spec fn takes_back<S>(op: RegistryOp<S>, identity: u64, ticket: u64) -> bool {
    op matches RegistryOp::Unregister(id, t) && id == identity && t == ticket
}

/// No change gives a ticket twice: a well-formed registry stays well formed,
/// and the number of tickets given out never falls.
pub proof fn lemma_ops_keep_well_formed<S>(registry: RegistryView<S>, ops: Seq<RegistryOp<S>>)
    requires
        registry.wf(),
    ensures
        apply_ops(registry, ops).wf(),
        registry.issued <= apply_ops(registry, ops).issued,
    decreases ops.len(),
{
    if ops.len() > 0 {
        lemma_ops_keep_well_formed(registry, ops.drop_last());
    }
}

/// Two workers that register the same identity leave one entry for it, that
/// of the worker that came last; every other entry is as it was before.
pub proof fn lemma_register_twice_leaves_one_entry<S>(
    registry: RegistryView<S>,
    identity: u64,
    first: S,
    second: S,
)
    requires
        registry.wf(),
        registry.issued + 2 <= u64::MAX,
    ensures
        ({
            let once = registry.register(identity, first);
            let after = once.register(identity, second);
            &&& after.lookup(identity) == Some(second)
            &&& after.entries == registry.register(identity, second).entries.insert(
                identity,
                after.entries[identity],
            )
            &&& after.entries.dom() == registry.entries.dom().insert(identity)
            &&& after.entries.len() == once.entries.len()
            &&& after.entries.len() == if registry.entries.contains_key(identity) {
                registry.entries.len()
            } else {
                registry.entries.len() + 1
            }
            &&& forall|other: u64|
                other != identity ==> after.entries.contains_key(other)
                    == registry.entries.contains_key(other) && (registry.entries.contains_key(
                    other,
                ) ==> #[trigger] after.entries[other] == registry.entries[other])
        }),
{
    let once = registry.register(identity, first);
    let after = once.register(identity, second);
    assert(after.entries =~= registry.register(identity, second).entries.insert(
        identity,
        after.entries[identity],
    ));
    assert(after.entries.dom() =~= registry.entries.dom().insert(identity));
    assert(once.entries.dom() =~= registry.entries.dom().insert(identity));
}

/// Once a registration is taken back, no lookup finds the identity until it
/// is registered again, whatever else happens to the registry in between.
pub proof fn lemma_unregistered_stays_absent<S>(
    registry: RegistryView<S>,
    identity: u64,
    ticket: u64,
    later: Seq<RegistryOp<S>>,
)
    requires
        registry.owns(identity, ticket),
        forall|i: int| 0 <= i < later.len() ==> !registers(#[trigger] later[i], identity),
    ensures
        apply_ops(registry.unregister(identity, ticket), later).lookup(identity) is None,
    decreases later.len(),
{
    if later.len() > 0 {
        let before = later.drop_last();
        assert forall|i: int| 0 <= i < before.len() implies !registers(
            #[trigger] before[i],
            identity,
        ) by {
            assert(before[i] == later[i]);
        }
        lemma_unregistered_stays_absent(registry, identity, ticket, before);
        assert(!registers(later[later.len() - 1], identity));
    }
}

/// Taking a registration back is idempotent: a second time changes nothing,
/// and neither does taking back what is not entered.
pub proof fn lemma_unregister_idempotent<S>(registry: RegistryView<S>, identity: u64, ticket: u64)
    ensures
        registry.unregister(identity, ticket).unregister(identity, ticket) == registry.unregister(
            identity,
            ticket,
        ),
        !registry.owns(identity, ticket) ==> registry.unregister(identity, ticket) == registry,
{
}

/// A registered agent is found, with the handle it was registered with, until
/// the identity is registered anew or this very registration is taken back.
/// The taking back of any other registration of the identity leaves it.
pub proof fn lemma_registered_stays_present<S>(
    registry: RegistryView<S>,
    identity: u64,
    sender: S,
    later: Seq<RegistryOp<S>>,
)
    requires
        registry.has_ticket_left(),
        forall|i: int|
            0 <= i < later.len() ==> !registers(#[trigger] later[i], identity) && !takes_back(
                later[i],
                identity,
                registry.issued as u64,
            ),
    ensures
        apply_ops(registry.register(identity, sender), later).owns(identity, registry.issued as u64),
        apply_ops(registry.register(identity, sender), later).lookup(identity) == Some(sender),
    decreases later.len(),
{
    if later.len() > 0 {
        let before = later.drop_last();
        assert forall|i: int| 0 <= i < before.len() implies !registers(
            #[trigger] before[i],
            identity,
        ) && !takes_back(before[i], identity, registry.issued as u64) by {
            assert(before[i] == later[i]);
        }
        lemma_registered_stays_present(registry, identity, sender, before);
        let last = later[later.len() - 1];
        assert(!registers(last, identity) && !takes_back(last, identity, registry.issued as u64));
    }
}

/// A replaced registration cannot remove its successor. When an identity is
/// registered a second time, whatever happened in between, the first
/// registration's ticket is not the second's: taking the first registration
/// back leaves the successor's entry as it is.
pub proof fn lemma_replaced_cannot_remove_successor<S>(
    registry: RegistryView<S>,
    identity: u64,
    first: S,
    between: Seq<RegistryOp<S>>,
    second: S,
)
    requires
        registry.wf(),
        registry.has_ticket_left(),
        apply_ops(registry.register(identity, first), between).has_ticket_left(),
    ensures
        ({
            let first_ticket = registry.issued as u64;
            let replaced = apply_ops(registry.register(identity, first), between).register(
                identity,
                second,
            );
            &&& replaced.lookup(identity) == Some(second)
            &&& !replaced.owns(identity, first_ticket)
            &&& replaced.unregister(identity, first_ticket) == replaced
        }),
{
    lemma_ops_keep_well_formed(registry.register(identity, first), between);
}

} // verus!
