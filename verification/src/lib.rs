//! Core of an in-memory publish/subscribe message broker.
//!
//! Producers declare named, capacity-bounded queues and publish messages to
//! them; consumers attach to queues and receive a fan-out of everything
//! published afterwards.  The heart of the crate is the event coordinator
//! ([`broker::Broker`]): a single authority that owns all broker state and
//! serializes every state transition triggered by network commands.  Network
//! plumbing (sockets, framing, task spawning) stays outside; the coordinator
//! is a pure state machine from events to state changes and actions.

pub mod addr;
pub mod broker;
pub mod command;
pub mod consumer;
pub mod events;
pub mod laws;
pub mod message;
pub mod messages;
pub mod queue;
pub mod server;
