//! Capture-and-forward logic of an IEEE 802.15.4 sniffer: the serial command
//! protocol, the radio configuration, the length-prefixed wire frames, the
//! firmware's interrupt-driven pipeline and the host-side frame decoder.
pub mod protocol;
pub mod config;
pub mod wire;
pub mod host;
pub mod firmware;
