//! RustOS kernel services: network buffers and protocols, package archives,
//! virtual memory bookkeeping, PCI configuration decoding and user-space
//! access checks, each with its behaviour stated as a contract.

pub mod text;
pub mod net;
pub mod memory_manager;
pub mod memory;
pub mod memory_basic;
pub mod package;
pub mod pci;
pub mod performance;

