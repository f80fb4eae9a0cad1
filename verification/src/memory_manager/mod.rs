//! Virtual memory bookkeeping: regions, protection and page table flags,
//! and the mmap, munmap, mprotect, brk and sbrk decisions.
pub mod memory_region;
pub mod page_table;
pub mod virtual_memory;
pub mod api;
pub mod examples;

pub use memory_region::{MemoryRegion, MemoryType, ProtectionFlags};
pub use page_table::PageTableFlags;
pub use virtual_memory::{VirtualMemoryManager, VmError, VmResult, MmapFlags, MemoryStats};
