//! The scan phases: link-layer discovery, latency probing, port probing.

pub mod arp;
pub mod frame;
pub mod gate;
pub mod icmp;
pub mod tcp;
