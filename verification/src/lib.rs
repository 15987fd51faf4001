//! Passive observer for Precision Time Protocol (IEEE 1588) traffic.
//!
//! The crate decodes raw PTP message payloads, keeps a registry of the
//! clocks seen on the network, infers each host's synchronization role,
//! and runs the Best Master Clock Algorithm per PTP domain.  It never
//! sends a packet: it only classifies what it observes.

pub mod bounded_vec;
pub mod codec;
pub mod correlation;
pub mod display;
pub mod election;
pub mod host;
pub mod host_state;
pub mod identity;
pub mod net;
pub mod seq_util;
pub mod tracker;
