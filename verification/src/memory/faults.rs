//! The decisions of the page fault handler: what a fault asks for, given
//! its error code, the protection of the region it hit and whether the
//! page is swapped out.

use vstd::prelude::*;
use crate::memory::{MemoryError, MemoryProtection};

verus! {

/// What a page fault asks the memory manager to do.
#[derive(Debug, Clone, Copy, PartialEq, Eq, Structural)]
pub enum FaultAction {
    /// Read the page back from swap.
    SwapIn,
    /// Give the page a fresh zeroed frame.
    DemandPage,
    /// Copy the shared page for the writer.
    CopyOnWrite,
}

/// The answer to a fault with error code `code` (bit 0 present, bit 1
/// write, bit 2 user, bit 4 instruction fetch) at an address in a region
/// with protection `region` (`None` outside every region).
pub open spec fn fault_action(code: u64, region: Option<MemoryProtection>, swapped: bool) -> Result<
    FaultAction,
    MemoryError,
> {
    match region {
        None => Err(MemoryError::InvalidAddress),
        Some(p) => {
            let present = code & 1 != 0;
            let write = code & 2 != 0;
            let user = code & 4 != 0;
            let fetch = code & 0x10 != 0;
            if !present {
                if swapped {
                    Ok(FaultAction::SwapIn)
                } else {
                    Ok(FaultAction::DemandPage)
                }
            } else if write && p.copy_on_write {
                Ok(FaultAction::CopyOnWrite)
            } else if write && !p.writable {
                Err(MemoryError::WriteViolation)
            } else if fetch && !p.executable {
                Err(MemoryError::ExecuteViolation)
            } else if user && !p.user_accessible {
                Err(MemoryError::PrivilegeViolation)
            } else if p.guard_page {
                Err(MemoryError::GuardPageViolation)
            } else {
                Err(MemoryError::InvalidAddress)
            }
        },
    }
}

/// Decides what a page fault asks for (`fault_action`): a missing page is
/// swapped in or demand-paged, a write to a copy-on-write page copied,
/// and a fault against the region's rights reported.
pub fn page_fault_action(code: u64, region: Option<MemoryProtection>, swapped: bool) -> (r: Result<
    FaultAction,
    MemoryError,
>)
    ensures
        r == fault_action(code, region, swapped),
{
    let p = match region {
        None => {
            return Err(MemoryError::InvalidAddress);
        },
        Some(p) => p,
    };
    let present = code & 1 != 0;
    let write = code & 2 != 0;
    let user = code & 4 != 0;
    let fetch = code & 0x10 != 0;
    if !present {
        if swapped {
            return Ok(FaultAction::SwapIn);
        } else {
            return Ok(FaultAction::DemandPage);
        }
    }
    if write && p.copy_on_write {
        return Ok(FaultAction::CopyOnWrite);
    }
    if write && !p.writable {
        return Err(MemoryError::WriteViolation);
    }
    if fetch && !p.executable {
        return Err(MemoryError::ExecuteViolation);
    }
    if user && !p.user_accessible {
        return Err(MemoryError::PrivilegeViolation);
    }
    if p.guard_page {
        return Err(MemoryError::GuardPageViolation);
    }
    Err(MemoryError::InvalidAddress)
}

} // verus!
