//! Subnet arithmetic and vendor lookup.

pub mod subnet;
pub mod vendor;
