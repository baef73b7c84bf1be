use relayer::agent::{
    attach_agent, register_agent, run_agent_connection, unregister_agent, AgentAction, AgentEvent,
};
use relayer::cluster::{
    on_response, start_cluster_tunnel, tunnel_over_cluster, ClusterAction, ClusterError,
    ClusterEvent, ClusterState, Direction, FailureKind, RelayEnd, CLUSTER_PORT,
    CLUSTER_SERVER_NAME,
};
use relayer::identity::home_id_from_domain;
use relayer::protocol::{ClusterTunnelRequest, ClusterTunnelResponse, DecodeError};
use relayer::registry::AgentRegistry;
use relayer::tunnel::{
    accept_tunnel, lookup_agent, tunnel_task, RejectReason, TunnelAction, TunnelContext,
    TunnelEvent, TunnelState, READY_TIMEOUT_SECS,
};

const DOMAIN: &str = "app.example.com";

enum Ready {
    Timeout,
    Invalid,
    Domain(&'static str),
}

enum Response {
    Bytes(Vec<u8>),
    Finished,
    Failed,
}

/// Everything around the routing machine, as a test double: it answers each
/// action as scripted, counts what it opens and closes, and records what it
/// was asked to do.
struct World {
    ready: Ready,
    registry: AgentRegistry<u32>,
    alias: Option<u32>,
    connect_ok: bool,
    stream_ok: bool,
    write_ok: bool,
    response: Response,
    relay_end: RelayEnd,

    opened: usize,
    closed: usize,
    tunnel_held: bool,
    connection_held: bool,
    stream_held: bool,

    waits: Vec<u64>,
    lookups: Vec<u64>,
    alias_queries: Vec<u64>,
    connects: Vec<(u32, u16, String)>,
    streams: usize,
    requests: Vec<Vec<u8>>,
    reads: Vec<usize>,
    relays: usize,
    written_to_proxy: Vec<u8>,
    handed_to: Vec<u32>,
    releases: usize,
}

impl World {
    fn new(ready: Ready) -> Self {
        World {
            ready,
            registry: AgentRegistry::new(),
            alias: None,
            connect_ok: true,
            stream_ok: true,
            write_ok: true,
            response: Response::Bytes(vec![1]),
            relay_end: RelayEnd { first: Direction::ProxyToAgent, failed: false },
            opened: 0,
            closed: 0,
            tunnel_held: false,
            connection_held: false,
            stream_held: false,
            waits: Vec::new(),
            lookups: Vec::new(),
            alias_queries: Vec::new(),
            connects: Vec::new(),
            streams: 0,
            requests: Vec::new(),
            reads: Vec::new(),
            relays: 0,
            written_to_proxy: Vec::new(),
            handed_to: Vec::new(),
            releases: 0,
        }
    }

    fn with_domain() -> Self {
        World::new(Ready::Domain(DOMAIN))
    }

    fn cluster(&mut self, action: ClusterAction) -> Option<ClusterEvent> {
        Some(match action {
            ClusterAction::FindAlias { identity } => {
                self.alias_queries.push(identity);
                match self.alias {
                    Some(node) => ClusterEvent::AliasFound(node),
                    None => ClusterEvent::AliasNotFound,
                }
            }
            ClusterAction::Connect { node, port, server_name } => {
                self.connects.push((node, port, server_name.to_string()));
                if self.connect_ok {
                    self.opened += 1;
                    self.connection_held = true;
                    ClusterEvent::Connected
                } else {
                    ClusterEvent::ConnectFailed
                }
            }
            ClusterAction::OpenStream => {
                self.streams += 1;
                if self.stream_ok {
                    self.opened += 1;
                    self.stream_held = true;
                    ClusterEvent::StreamOpened
                } else {
                    ClusterEvent::StreamOpenFailed
                }
            }
            ClusterAction::WriteRequest { bytes } => {
                self.requests.push(bytes);
                if self.write_ok {
                    ClusterEvent::RequestWritten
                } else {
                    ClusterEvent::RequestWriteFailed
                }
            }
            ClusterAction::ReadResponse { max_len } => {
                self.reads.push(max_len);
                match &self.response {
                    Response::Bytes(bytes) => ClusterEvent::ResponseReceived(bytes.clone()),
                    Response::Finished => ClusterEvent::ResponseStreamFinished,
                    Response::Failed => ClusterEvent::ResponseReadFailed,
                }
            }
            ClusterAction::Relay { early } => {
                self.relays += 1;
                self.written_to_proxy.extend_from_slice(&early);
                ClusterEvent::RelayEnded(self.relay_end)
            }
            ClusterAction::Release => return None,
        })
    }

    fn release(&mut self) {
        self.releases += 1;
        for held in [&mut self.tunnel_held, &mut self.connection_held, &mut self.stream_held] {
            if *held {
                *held = false;
                self.closed += 1;
            }
        }
    }

    /// Routes one tunnel to its end and returns the final state.
    fn route(&mut self, context: TunnelContext) -> TunnelState {
        self.opened += 1;
        self.tunnel_held = true;
        let (mut state, mut action) = accept_tunnel(context);
        let mut found: Option<u32> = None;
        loop {
            let event = match action {
                TunnelAction::AwaitReady { timeout_secs } => {
                    self.waits.push(timeout_secs);
                    match self.ready {
                        Ready::Timeout => TunnelEvent::ReadyTimeout,
                        Ready::Invalid => TunnelEvent::ReadyInvalid,
                        Ready::Domain(domain) => TunnelEvent::Ready(domain.to_string()),
                    }
                }
                TunnelAction::LookupAgent { identity } => {
                    self.lookups.push(identity);
                    let (event, sender) = lookup_agent(&self.registry, identity);
                    found = sender.copied();
                    event
                }
                TunnelAction::HandOff => {
                    self.handed_to.push(found.expect("hand-off without an agent"));
                    self.tunnel_held = false;
                    self.closed += 1;
                    TunnelEvent::HandedOff
                }
                TunnelAction::Cluster(inner) => {
                    TunnelEvent::Cluster(self.cluster(inner).expect("release inside the relay"))
                }
                TunnelAction::Release => {
                    self.release();
                    assert!(state.is_terminal());
                    return state;
                }
            };
            assert!(!state.is_terminal());
            (state, action) = tunnel_task(state, event);
        }
    }

    fn assert_all_closed(&self) {
        assert_eq!(self.opened, self.closed);
        assert!(!self.tunnel_held && !self.connection_held && !self.stream_held);
        assert_eq!(self.releases, 1);
    }
}

fn rejected(error: ClusterError) -> TunnelState {
    TunnelState::Rejected(RejectReason::Cluster(error))
}

#[test]
fn routing_starts_with_a_bounded_wait() {
    let (state, action) = accept_tunnel(TunnelContext::Local);
    assert_eq!(state, TunnelState::AwaitingDomain { context: TunnelContext::Local });
    assert_eq!(action, TunnelAction::AwaitReady { timeout_secs: 5 });
    assert_eq!(READY_TIMEOUT_SECS, 5);
    assert!(!state.is_terminal());
    assert_eq!(state.rejection(), None);
}

#[test]
fn tunnel_that_never_becomes_ready_is_rejected() {
    let mut world = World::new(Ready::Timeout);
    world.alias = Some(3);
    let state = world.route(TunnelContext::Local);
    assert_eq!(state, TunnelState::Rejected(RejectReason::ReadyTimeout));
    assert_eq!(state.rejection(), Some(RejectReason::ReadyTimeout));
    assert_eq!(world.waits, vec![5]);
    assert!(world.lookups.is_empty());
    assert!(world.alias_queries.is_empty());
    assert!(world.connects.is_empty());
    world.assert_all_closed();
}

#[test]
fn invalid_tunnel_is_rejected() {
    let mut world = World::new(Ready::Invalid);
    let state = world.route(TunnelContext::Local);
    assert_eq!(state, TunnelState::Rejected(RejectReason::InvalidDomain));
    assert!(world.lookups.is_empty());
    world.assert_all_closed();
}

#[test]
fn local_hit_is_handed_to_the_agent() {
    let mut world = World::with_domain();
    world.registry.register(home_id_from_domain(DOMAIN), 17);
    world.registry.register(home_id_from_domain("other.example.com"), 18);
    world.alias = Some(3);
    let state = world.route(TunnelContext::Local);
    assert_eq!(state, TunnelState::Closed);
    assert_eq!(world.lookups, vec![home_id_from_domain(DOMAIN)]);
    assert_eq!(world.handed_to, vec![17]);
    world.assert_all_closed();
}

#[test]
fn local_hit_never_asks_the_alias_directory() {
    for context in [TunnelContext::Local, TunnelContext::Cluster] {
        let mut world = World::with_domain();
        world.registry.register(home_id_from_domain(DOMAIN), 17);
        let state = world.route(context);
        assert_eq!(state, TunnelState::Closed);
        assert!(world.alias_queries.is_empty());
        assert!(world.connects.is_empty());
        assert_eq!(world.relays, 0);
        assert_eq!(world.handed_to, vec![17]);
    }
}

#[test]
fn lookup_reports_hit_and_miss() {
    let mut registry = AgentRegistry::new();
    let ticket = registry.register(5, "five").unwrap();
    assert_eq!(lookup_agent(&registry, 5), (TunnelEvent::AgentFound, Some(&"five")));
    assert_eq!(lookup_agent(&registry, 6), (TunnelEvent::AgentMissing, None));
    registry.unregister(5, ticket);
    assert_eq!(lookup_agent(&registry, 5), (TunnelEvent::AgentMissing, None));
}

#[test]
fn cluster_fallback_sends_one_request_with_the_domain() {
    let mut world = World::with_domain();
    world.alias = Some(0x0a00_0001);
    let state = world.route(TunnelContext::Local);
    assert_eq!(state, TunnelState::Closed);
    assert_eq!(world.alias_queries, vec![home_id_from_domain(DOMAIN)]);
    assert_eq!(world.connects, vec![(0x0a00_0001, 443, "cluster".to_string())]);
    assert_eq!(world.streams, 1);
    assert_eq!(
        world.requests,
        vec![ClusterTunnelRequest::new(DOMAIN.to_string()).encode()]
    );
    assert_eq!(
        ClusterTunnelRequest::decode(&world.requests[0]).map(|r| r.domain),
        Ok(DOMAIN.to_string())
    );
    assert_eq!(world.reads, vec![1500]);
    assert_eq!(world.relays, 1);
    assert!(world.handed_to.is_empty());
    world.assert_all_closed();
}

#[test]
fn cluster_constants_are_the_well_known_ones() {
    assert_eq!(CLUSTER_PORT, 443);
    assert_eq!(CLUSTER_SERVER_NAME, "cluster");
}

#[test]
fn refused_response_rejects_without_relay() {
    let mut world = World::with_domain();
    world.alias = Some(3);
    world.response = Response::Bytes(ClusterTunnelResponse::new(false).encode());
    let state = world.route(TunnelContext::Local);
    assert_eq!(state, rejected(ClusterError::ResponseNotSuccess));
    assert_eq!(world.requests.len(), 1);
    assert_eq!(world.relays, 0);
    world.assert_all_closed();
}

#[test]
fn accepted_response_starts_the_relay() {
    let mut world = World::with_domain();
    world.alias = Some(3);
    world.response = Response::Bytes(ClusterTunnelResponse::new(true).encode());
    let state = world.route(TunnelContext::Local);
    assert_eq!(state, TunnelState::Closed);
    assert_eq!(world.relays, 1);
    world.assert_all_closed();
}

#[test]
fn relay_ends_the_same_way_however_it_ended() {
    for first in [Direction::ProxyToAgent, Direction::AgentToProxy] {
        for failed in [false, true] {
            let mut world = World::with_domain();
            world.alias = Some(3);
            world.relay_end = RelayEnd { first, failed };
            assert_eq!(world.route(TunnelContext::Local), TunnelState::Closed);
            assert_eq!(world.relays, 1);
            world.assert_all_closed();
        }
    }
}

#[test]
fn alias_not_found_rejects_without_connecting() {
    let mut world = World::with_domain();
    world.alias = None;
    let state = world.route(TunnelContext::Local);
    assert_eq!(state, rejected(ClusterError::AliasNotFound));
    assert_eq!(world.alias_queries, vec![home_id_from_domain(DOMAIN)]);
    assert!(world.connects.is_empty());
    assert_eq!(world.streams, 0);
    assert!(world.requests.is_empty());
    assert_eq!(world.relays, 0);
    world.assert_all_closed();
}

#[test]
fn tunnel_from_the_cluster_is_not_relayed_again() {
    let mut world = World::with_domain();
    world.alias = Some(3);
    let state = world.route(TunnelContext::Cluster);
    assert_eq!(state, TunnelState::Rejected(RejectReason::AgentNotFound));
    assert!(world.alias_queries.is_empty());
    assert!(world.connects.is_empty());
    world.assert_all_closed();
}

#[test]
fn connect_failure_rejects() {
    let mut world = World::with_domain();
    world.alias = Some(3);
    world.connect_ok = false;
    assert_eq!(world.route(TunnelContext::Local), rejected(ClusterError::ConnectFailed));
    assert_eq!(world.connects.len(), 1);
    assert_eq!(world.streams, 0);
    world.assert_all_closed();
}

#[test]
fn stream_failure_rejects_and_closes_the_connection() {
    let mut world = World::with_domain();
    world.alias = Some(3);
    world.stream_ok = false;
    assert_eq!(world.route(TunnelContext::Local), rejected(ClusterError::StreamOpenFailed));
    assert!(world.requests.is_empty());
    assert_eq!(world.opened, 2);
    world.assert_all_closed();
}

#[test]
fn write_failure_rejects_and_closes_connection_and_stream() {
    let mut world = World::with_domain();
    world.alias = Some(3);
    world.write_ok = false;
    assert_eq!(world.route(TunnelContext::Local), rejected(ClusterError::RequestWriteFailed));
    assert!(world.reads.is_empty());
    assert_eq!(world.opened, 3);
    world.assert_all_closed();
}

#[test]
fn read_failure_rejects() {
    let mut world = World::with_domain();
    world.alias = Some(3);
    world.response = Response::Failed;
    assert_eq!(world.route(TunnelContext::Local), rejected(ClusterError::ResponseReadFailed));
    assert_eq!(world.relays, 0);
    world.assert_all_closed();
}

#[test]
fn closed_stream_is_a_missing_response() {
    let mut world = World::with_domain();
    world.alias = Some(3);
    world.response = Response::Finished;
    assert_eq!(world.route(TunnelContext::Local), rejected(ClusterError::ResponseNotReceived));
    assert_eq!(world.relays, 0);
    world.assert_all_closed();
}

#[test]
fn malformed_response_rejects() {
    for (bytes, error) in [
        (vec![], DecodeError::Truncated),
        (vec![2], DecodeError::InvalidFlag),
        (vec![0xff, 1, 1], DecodeError::InvalidFlag),
    ] {
        let mut world = World::with_domain();
        world.alias = Some(3);
        world.response = Response::Bytes(bytes);
        assert_eq!(
            world.route(TunnelContext::Local),
            rejected(ClusterError::ResponseMalformed(error))
        );
        assert_eq!(world.relays, 0);
        world.assert_all_closed();
    }
}

#[test]
fn bytes_behind_the_response_go_to_the_relay() {
    let (state, action) = on_response(&[1, 0x47, 0x45, 0x54]);
    assert_eq!(state, ClusterState::Relaying);
    assert_eq!(action, ClusterAction::Relay { early: vec![0x47, 0x45, 0x54] });
    let (state, action) = on_response(&[1]);
    assert_eq!(state, ClusterState::Relaying);
    assert_eq!(action, ClusterAction::Relay { early: vec![] });
    let (state, action) = on_response(&[1, 1]);
    assert_eq!(state, ClusterState::Relaying);
    assert_eq!(action, ClusterAction::Relay { early: vec![1] });
}

#[test]
fn early_bytes_reach_the_proxy_side_unchanged() {
    let payload: Vec<u8> = (0..=255u8).collect();
    let mut read = vec![1];
    read.extend_from_slice(&payload);
    let mut world = World::with_domain();
    world.alias = Some(3);
    world.response = Response::Bytes(read);
    assert_eq!(world.route(TunnelContext::Local), TunnelState::Closed);
    assert_eq!(world.relays, 1);
    assert_eq!(world.written_to_proxy, payload);
    world.assert_all_closed();
}

#[test]
fn refused_or_malformed_response_passes_nothing_on() {
    for read in [vec![0, 0x47, 0x45, 0x54], vec![9, 0x47], vec![]] {
        let mut world = World::with_domain();
        world.alias = Some(3);
        world.response = Response::Bytes(read);
        assert!(world.route(TunnelContext::Local).rejection().is_some());
        assert_eq!(world.relays, 0);
        assert!(world.written_to_proxy.is_empty());
    }
}

#[test]
fn response_is_a_prefix_of_what_was_read() {
    let (state, action) = on_response(&[0, 1]);
    assert_eq!(state, ClusterState::Finished(Err(ClusterError::ResponseNotSuccess)));
    assert_eq!(action, ClusterAction::Release);
}

#[test]
fn response_may_fill_the_whole_read_but_not_more() {
    let mut full = vec![0u8; 1500];
    full[0] = 1;
    assert_eq!(
        on_response(&full),
        (ClusterState::Relaying, ClusterAction::Relay { early: vec![0u8; 1499] })
    );
    let mut over = vec![0u8; 1501];
    over[0] = 1;
    assert_eq!(
        on_response(&over),
        (ClusterState::Finished(Err(ClusterError::UnexpectedEvent)), ClusterAction::Release)
    );
}

#[test]
fn every_outcome_leaves_nothing_open() {
    let mut scenarios = 0;
    for alias in [None, Some(9)] {
        for connect_ok in [true, false] {
            for stream_ok in [true, false] {
                for write_ok in [true, false] {
                    for response in 0..5 {
                        for registered in [true, false] {
                            for context in [TunnelContext::Local, TunnelContext::Cluster] {
                                let mut world = World::with_domain();
                                world.alias = alias;
                                world.connect_ok = connect_ok;
                                world.stream_ok = stream_ok;
                                world.write_ok = write_ok;
                                world.response = match response {
                                    0 => Response::Bytes(vec![1]),
                                    1 => Response::Bytes(vec![0]),
                                    2 => Response::Bytes(vec![7]),
                                    3 => Response::Finished,
                                    _ => Response::Failed,
                                };
                                if registered {
                                    world.registry.register(home_id_from_domain(DOMAIN), 1);
                                }
                                let state = world.route(context);
                                assert!(state.is_terminal());
                                world.assert_all_closed();
                                assert!(world.requests.len() <= 1);
                                assert!(world.connects.len() <= 1);
                                assert!(world.relays + world.handed_to.len() <= 1);
                                scenarios += 1;
                            }
                        }
                    }
                }
            }
        }
    }
    assert_eq!(scenarios, 320);
}

#[test]
fn unexpected_event_rejects() {
    let (state, _) = accept_tunnel(TunnelContext::Local);
    let (state, action) = tunnel_task(state, TunnelEvent::HandedOff);
    assert_eq!(state, TunnelState::Rejected(RejectReason::UnexpectedEvent));
    assert_eq!(action, TunnelAction::Release);

    let (state, _) = accept_tunnel(TunnelContext::Local);
    let (state, _) = tunnel_task(state, TunnelEvent::Ready(DOMAIN.to_string()));
    let (state, action) = tunnel_task(state, TunnelEvent::Cluster(ClusterEvent::Connected));
    assert_eq!(state, TunnelState::Rejected(RejectReason::UnexpectedEvent));
    assert_eq!(action, TunnelAction::Release);

    let (state, action) = tunnel_task(TunnelState::HandingOff, TunnelEvent::AgentFound);
    assert_eq!(state, TunnelState::Rejected(RejectReason::UnexpectedEvent));
    assert_eq!(action, TunnelAction::Release);

    let relaying = TunnelState::OverCluster(ClusterState::Relaying);
    let (state, action) = tunnel_task(relaying, TunnelEvent::ReadyTimeout);
    assert_eq!(state, TunnelState::Rejected(RejectReason::UnexpectedEvent));
    assert_eq!(action, TunnelAction::Release);
}

#[test]
fn unexpected_cluster_event_gives_up() {
    let (state, _) = start_cluster_tunnel(DOMAIN.to_string());
    let (state, action) = tunnel_over_cluster(state, ClusterEvent::StreamOpened);
    assert_eq!(state, ClusterState::Finished(Err(ClusterError::UnexpectedEvent)));
    assert_eq!(action, ClusterAction::Release);

    let waiting = TunnelState::OverCluster(ClusterState::WritingRequest);
    let (state, action) = tunnel_task(waiting, TunnelEvent::Cluster(ClusterEvent::Connected));
    assert_eq!(state, rejected(ClusterError::UnexpectedEvent));
    assert_eq!(action, TunnelAction::Release);
}

#[test]
fn finished_routing_answers_everything_with_release() {
    for state in [
        TunnelState::Closed,
        TunnelState::Rejected(RejectReason::ReadyTimeout),
        rejected(ClusterError::AliasNotFound),
    ] {
        let expected = format!("{:?}", state);
        let (state, action) = tunnel_task(state, TunnelEvent::Cluster(ClusterEvent::Connected));
        assert_eq!(format!("{:?}", state), expected);
        assert_eq!(action, TunnelAction::Release);
        let (state, action) = tunnel_task(state, TunnelEvent::Ready(DOMAIN.to_string()));
        assert_eq!(format!("{:?}", state), expected);
        assert_eq!(action, TunnelAction::Release);
    }
}

#[test]
fn cluster_attempt_runs_step_by_step() {
    let (state, action) = start_cluster_tunnel(DOMAIN.to_string());
    assert_eq!(state, ClusterState::FindingAlias { domain: DOMAIN.to_string() });
    assert_eq!(action, ClusterAction::FindAlias { identity: home_id_from_domain(DOMAIN) });
    assert!(!state.is_finished());
    assert_eq!(state.outcome(), None);

    let (state, action) = tunnel_over_cluster(state, ClusterEvent::AliasFound(7));
    assert_eq!(state, ClusterState::Connecting { domain: DOMAIN.to_string() });
    assert_eq!(action, ClusterAction::Connect { node: 7, port: 443, server_name: "cluster" });

    let (state, action) = tunnel_over_cluster(state, ClusterEvent::Connected);
    assert_eq!(state, ClusterState::OpeningStream { domain: DOMAIN.to_string() });
    assert_eq!(action, ClusterAction::OpenStream);

    let (state, action) = tunnel_over_cluster(state, ClusterEvent::StreamOpened);
    assert_eq!(state, ClusterState::WritingRequest);
    let mut frame = vec![15, 0, 0, 0, 0, 0, 0, 0];
    frame.extend_from_slice(DOMAIN.as_bytes());
    assert_eq!(action, ClusterAction::WriteRequest { bytes: frame });

    let (state, action) = tunnel_over_cluster(state, ClusterEvent::RequestWritten);
    assert_eq!(state, ClusterState::ReadingResponse);
    assert_eq!(action, ClusterAction::ReadResponse { max_len: 1500 });

    let (state, action) = tunnel_over_cluster(state, ClusterEvent::ResponseReceived(vec![1, 2]));
    assert_eq!(state, ClusterState::Relaying);
    assert_eq!(action, ClusterAction::Relay { early: vec![2] });

    let end = RelayEnd { first: Direction::AgentToProxy, failed: true };
    let (state, action) = tunnel_over_cluster(state, ClusterEvent::RelayEnded(end));
    assert_eq!(state, ClusterState::Finished(Ok(())));
    assert_eq!(action, ClusterAction::Release);
    assert!(state.is_finished());
    assert_eq!(state.outcome(), Some(Ok(())));

    let (state, action) = tunnel_over_cluster(state, ClusterEvent::Connected);
    assert_eq!(state, ClusterState::Finished(Ok(())));
    assert_eq!(action, ClusterAction::Release);
}

#[test]
fn failures_are_told_apart_by_kind() {
    assert_eq!(ClusterError::AliasNotFound.kind(), FailureKind::RoutingMiss);
    assert_eq!(ClusterError::ConnectFailed.kind(), FailureKind::Transport);
    assert_eq!(ClusterError::StreamOpenFailed.kind(), FailureKind::Transport);
    assert_eq!(ClusterError::RequestWriteFailed.kind(), FailureKind::Transport);
    assert_eq!(ClusterError::ResponseReadFailed.kind(), FailureKind::Transport);
    assert_eq!(ClusterError::ResponseNotReceived.kind(), FailureKind::Protocol);
    assert_eq!(
        ClusterError::ResponseMalformed(DecodeError::InvalidFlag).kind(),
        FailureKind::Protocol
    );
    assert_eq!(ClusterError::ResponseNotSuccess.kind(), FailureKind::Refused);
    assert_eq!(ClusterError::UnexpectedEvent.kind(), FailureKind::Driver);
}

#[test]
fn tunnel_reaches_the_agent_registered_for_its_domain() {
    let mut world = World::with_domain();
    world.alias = None;

    let (agent, action) = attach_agent(DOMAIN);
    let AgentAction::Register { identity } = action else {
        panic!("an agent starts by registering");
    };
    let registered = register_agent(&mut world.registry, identity, 77);
    assert_eq!(world.route(TunnelContext::Local), TunnelState::Closed);
    assert_eq!(world.handed_to, vec![77]);

    let (agent, _) = run_agent_connection(agent, registered);
    let (agent, _) = run_agent_connection(agent, AgentEvent::Done);
    let (_, action) = run_agent_connection(agent, AgentEvent::Failed);
    let AgentAction::Unregister { identity, ticket } = action else {
        panic!("a failed agent is unregistered");
    };
    assert_eq!(
        unregister_agent(&mut world.registry, identity, ticket),
        AgentEvent::Unregistered { own: true }
    );
    let mut later = World::with_domain();
    later.registry = world.registry;
    assert_eq!(later.route(TunnelContext::Local), rejected(ClusterError::AliasNotFound));
    assert!(later.handed_to.is_empty());
}

#[test]
fn tunnel_reaches_the_successor_after_the_replaced_agent_left() {
    let mut world = World::with_domain();
    world.alias = None;
    let identity = home_id_from_domain(DOMAIN);

    let first = register_agent(&mut world.registry, identity, 1);
    let second = register_agent(&mut world.registry, identity, 2);
    let (first_state, _) = run_agent_connection(attach_agent(DOMAIN).0, first);
    let (first_state, _) = run_agent_connection(first_state, AgentEvent::Done);
    let (second_state, _) = run_agent_connection(attach_agent(DOMAIN).0, second);
    let (second_state, _) = run_agent_connection(second_state, AgentEvent::Done);
    assert!(first_state.is_running() && second_state.is_running());

    let (first_state, action) = run_agent_connection(first_state, AgentEvent::Failed);
    let AgentAction::Unregister { identity, ticket } = action else {
        panic!("a failed agent takes its registration back");
    };
    let report = unregister_agent(&mut world.registry, identity, ticket);
    assert_eq!(report, AgentEvent::Unregistered { own: false });
    let (first_state, action) = run_agent_connection(first_state, report);
    assert!(first_state.is_exited());
    assert_eq!(action, AgentAction::Finish);

    assert_eq!(world.route(TunnelContext::Local), TunnelState::Closed);
    assert_eq!(world.handed_to, vec![2]);
}

#[test]
fn failures_have_their_texts() {
    assert_eq!(ClusterError::AliasNotFound.message(), "NODE_ALIAS_NOT_FOUND");
    assert_eq!(
        ClusterError::ResponseNotReceived.message(),
        "ClusterTunnelResponse not received"
    );
    assert_eq!(
        ClusterError::ResponseNotSuccess.message(),
        "ClusterTunnelResponse not success"
    );
    assert_eq!(ClusterError::ConnectFailed.message(), "connect to node failed");
    assert_eq!(ClusterError::StreamOpenFailed.message(), "open stream to node failed");
    assert_eq!(ClusterError::RequestWriteFailed.message(), "ClusterTunnelRequest not sent");
    assert_eq!(
        ClusterError::ResponseReadFailed.message(),
        "ClusterTunnelResponse read failed"
    );
    assert_eq!(
        ClusterError::ResponseMalformed(DecodeError::Truncated).message(),
        "ClusterTunnelResponse malformed"
    );
    assert_eq!(ClusterError::UnexpectedEvent.message(), "unexpected event");
}

#[test]
fn rejections_have_their_texts() {
    assert_eq!(
        RejectReason::ReadyTimeout.message(),
        "proxy_tunnel.wait() for checking url timeout"
    );
    assert_eq!(
        RejectReason::InvalidDomain.message(),
        "proxy_tunnel.wait() for checking url invalid"
    );
    assert_eq!(RejectReason::AgentNotFound.message(), "agent not found");
    assert_eq!(RejectReason::UnexpectedEvent.message(), "unexpected event");
    assert_eq!(
        RejectReason::Cluster(ClusterError::AliasNotFound).message(),
        "NODE_ALIAS_NOT_FOUND"
    );
    assert_eq!(
        RejectReason::Cluster(ClusterError::ResponseNotSuccess).message(),
        "ClusterTunnelResponse not success"
    );
}
