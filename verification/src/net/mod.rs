//! Network stack: addresses, errors, packet buffers and protocol logic.

pub mod types;
pub mod checksum;
pub mod buffer;
pub mod wire;
pub mod dhcp;
pub mod dns;
pub mod dns_roundtrip;
pub mod tcp;
pub mod arp;
pub mod dma;
pub mod ip;
pub mod icmp;
pub mod device;

pub use types::{NetworkError, NetworkResult, NetworkAddress, Ipv4Address, MacAddress};
