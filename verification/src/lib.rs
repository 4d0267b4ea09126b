//! Core of a permissioned, leader-based BFT ledger: the deterministic
//! peer topology, the block pipeline from pending to committed, and the
//! message-driven Sumeragi round state machine with view changes.
//!
//! Every peer holds one [`sumeragi::Sumeragi`] value and feeds it the
//! consensus [`message::Message`]s, timer expiries and round starts;
//! each handler mutates that state and returns the sends, timers and
//! events for the surrounding runtime to carry out. The
//! [`topology::Topology`] orders the trusted peers deterministically
//! from the last committed block's hash and assigns the four roles;
//! [`block`] holds the pending, valid and committed block forms with
//! their signature mappings; [`wsv`] applies committed blocks in strict
//! height order. Network transport, the durable block log, the
//! transaction queue's policy, the execution engine and the signature
//! primitives are external collaborators behind those interfaces.

pub mod block;
pub mod bytes;
pub mod config;
pub mod framing;
pub mod hashing;
pub mod message;
pub mod peer;
pub mod query;
pub mod signatures;
pub mod sumeragi;
pub mod topology;
pub mod wsv;

