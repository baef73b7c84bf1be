use relayer::registry::AgentRegistry;

#[test]
fn new_registry_is_empty() {
    let registry: AgentRegistry<&str> = AgentRegistry::new();
    assert!(registry.is_empty());
    assert_eq!(registry.len(), 0);
    assert_eq!(registry.lookup(1), None);
    assert!(!registry.contains(1));
    assert!(!registry.owns(1, 0));
}

#[test]
fn registered_agent_is_found() {
    let mut registry = AgentRegistry::new();
    assert_eq!(registry.register(7, "seven"), Some(0));
    assert_eq!(registry.lookup(7), Some(&"seven"));
    assert!(registry.contains(7));
    assert!(registry.owns(7, 0));
    assert_eq!(registry.lookup(8), None);
    assert_eq!(registry.len(), 1);
    assert!(!registry.is_empty());
}

#[test]
fn every_registration_gets_a_new_ticket() {
    let mut registry = AgentRegistry::new();
    assert_eq!(registry.register(7, "a"), Some(0));
    assert_eq!(registry.register(8, "b"), Some(1));
    assert_eq!(registry.register(7, "c"), Some(2));
    assert_eq!(registry.unregister(7, 2), Some("c"));
    assert_eq!(registry.register(7, "d"), Some(3));
    assert!(registry.owns(7, 3));
    assert!(!registry.owns(7, 0));
    assert!(!registry.owns(7, 2));
    assert!(registry.owns(8, 1));
}

#[test]
fn second_registration_replaces_the_first() {
    let mut registry = AgentRegistry::new();
    let old = registry.register(7, "old").unwrap();
    let new = registry.register(7, "new").unwrap();
    assert_ne!(old, new);
    assert_eq!(registry.lookup(7), Some(&"new"));
    assert_eq!(registry.len(), 1);
    assert!(registry.owns(7, new));
    assert!(!registry.owns(7, old));
}

#[test]
fn two_workers_leave_one_entry_in_either_order() {
    let mut first_wins_last = AgentRegistry::new();
    first_wins_last.register(42, "b");
    first_wins_last.register(42, "a");
    let mut second_wins_last = AgentRegistry::new();
    second_wins_last.register(42, "a");
    second_wins_last.register(42, "b");
    assert_eq!(first_wins_last.len(), 1);
    assert_eq!(second_wins_last.len(), 1);
    assert_eq!(first_wins_last.lookup(42), Some(&"a"));
    assert_eq!(second_wins_last.lookup(42), Some(&"b"));
}

#[test]
fn replaced_registration_cannot_remove_its_successor() {
    let mut registry = AgentRegistry::new();
    let first = registry.register(7, "first").unwrap();
    registry.register(9, "other");
    let second = registry.register(7, "second").unwrap();
    assert_eq!(registry.unregister(7, first), None);
    assert_eq!(registry.lookup(7), Some(&"second"));
    assert!(registry.owns(7, second));
    assert_eq!(registry.len(), 2);
    assert_eq!(registry.unregister(7, second), Some("second"));
    assert_eq!(registry.lookup(7), None);
}

#[test]
fn unregistered_agent_is_not_found() {
    let mut registry = AgentRegistry::new();
    let seven = registry.register(7, "seven").unwrap();
    let eight = registry.register(8, "eight").unwrap();
    assert_eq!(registry.unregister(7, seven), Some("seven"));
    assert_eq!(registry.lookup(7), None);
    assert!(!registry.contains(7));
    assert_eq!(registry.lookup(8), Some(&"eight"));
    assert_eq!(registry.len(), 1);
    registry.register(9, "nine");
    registry.unregister(8, eight);
    assert_eq!(registry.lookup(7), None);
}

#[test]
fn unregister_is_idempotent() {
    let mut registry = AgentRegistry::new();
    let ticket = registry.register(7, "seven").unwrap();
    assert_eq!(registry.unregister(7, ticket), Some("seven"));
    assert_eq!(registry.unregister(7, ticket), None);
    assert_eq!(registry.unregister(99, ticket), None);
    assert!(registry.is_empty());
}

#[test]
fn unregister_with_a_foreign_ticket_changes_nothing() {
    let mut registry = AgentRegistry::new();
    let ticket = registry.register(7, "seven").unwrap();
    assert_eq!(registry.unregister(7, ticket + 1), None);
    assert_eq!(registry.unregister(8, ticket), None);
    assert_eq!(registry.lookup(7), Some(&"seven"));
    assert_eq!(registry.len(), 1);
}

#[test]
fn identity_can_be_claimed_again_after_removal() {
    let mut registry = AgentRegistry::new();
    let first = registry.register(7, "first").unwrap();
    registry.unregister(7, first);
    let second = registry.register(7, "second").unwrap();
    assert_ne!(first, second);
    assert_eq!(registry.lookup(7), Some(&"second"));
    assert_eq!(registry.unregister(7, first), None);
    assert_eq!(registry.lookup(7), Some(&"second"));
}

#[test]
fn registry_keeps_other_entries_apart() {
    let mut registry = AgentRegistry::new();
    for id in 0..100u64 {
        assert_eq!(registry.register(id, id * 2), Some(id));
    }
    assert_eq!(registry.len(), 100);
    for id in 0..100u64 {
        assert_eq!(registry.lookup(id), Some(&(id * 2)));
    }
    assert_eq!(registry.lookup(100), None);
}
