//! Routing core of a reverse-tunnel relay, free of I/O.
//!
//! Agents register a domain with a relay node; proxy connections addressed to
//! that domain are handed to the agent, on this node or on another node of the
//! cluster. This crate holds the decisions: every function here is a plain
//! computation on values, so that the surrounding program performs the network
//! work and reports back what happened.
//!
//! * [`identity`]: the numeric identity of a domain, the key of every lookup.
//! * [`registry`]: the agents attached to this node.
//! * [`agent`]: the life of one agent, from registration to removal.
//! * [`protocol`]: the handshake messages between nodes and their wire format.
//! * [`cluster`]: the client side of a tunnel relayed to another node.
//! * [`tunnel`]: the routing of one inbound proxy connection.
//! * [`trace`]: what holds of every run of the routing.

pub mod agent;
pub mod cluster;
pub mod identity;
pub mod protocol;
pub mod registry;
pub mod trace;
pub mod tunnel;

pub use agent::run_agent_connection;
pub use tunnel::{tunnel_task, TunnelContext};
