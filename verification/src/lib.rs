//! Core protocol logic of a peer-to-peer voice and messaging application:
//! the wire codec for voice signalling packets, the per-connection handshake
//! state machine, the channel-mesh behaviour that gates voice relay, the
//! swarm event dispatcher, and the self-certifying name registration service.
//!
//! Peer connections, the distributed hash table, audio hardware and the
//! graphical shell are outside collaborators; this crate holds the decisions
//! and data they act on, stated and proved over plain values.

pub mod audio;
pub mod behaviour;
pub mod handler;
pub mod logic;
pub mod message;
pub mod packet;
pub mod peer;
pub mod save_state;
pub mod state;
pub mod tabs;
