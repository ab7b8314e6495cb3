//! A rendezvous relay for peer-to-peer session negotiation: clients connect,
//! get an identity, and exchange OFFER, ANSWER and ICE frames through it.
//!
//! `frame` parses a negotiation frame, `relay` keeps the registry of live
//! sessions and decides where each frame goes, and `laws` states what holds
//! over every run of the registry.

pub mod frame;
pub mod identity;
pub mod laws;
pub mod relay;

pub use frame::{parse_frame, Frame};
pub use relay::{Delivery, Relay};
