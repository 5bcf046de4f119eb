//! Verified core of a software KVM: input-event wire format, packet
//! framing, replay protection, certificate fingerprints, clipboard
//! streaming and the peer/input state machine.

pub mod crypto;
pub mod text;
pub mod network;
pub mod config;
pub mod engine;
pub mod state;
pub mod hardware;
pub mod paths;
