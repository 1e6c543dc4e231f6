//! Conversion between hardware link-layer addresses (EUI-48, EUI-64) and
//! IPv6 link-local addresses built from a Modified EUI-64 interface identifier.

pub mod cli;
pub mod eui;
pub mod grammar;
pub mod hex;
pub mod ipv6;
