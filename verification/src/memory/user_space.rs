//! Checks on user-space memory accesses: pointer ranges, page table walks
//! for permissions, protection of a page, suspicious patterns, and how a
//! copy is cut into checked pieces.
//!
//! The page table walk and the copies read hardware state and user memory;
//! the caller reads each entry or byte, and the decisions are made here.
use vstd::prelude::*;
use crate::text::utf8_to_string;
use vstd::utf8::{valid_utf8, decode_utf8};
use vstd::string::StringSliceAdditionalSpecFns;

verus! {

/// Errors of system calls that touch user memory.
#[derive(Debug, Clone, Copy, PartialEq, Eq, Structural)]
pub enum SyscallError {
    InvalidAddress,
    PermissionDenied,
    InvalidArgument,
    InternalError,
}

/// First address of user space.
pub const USER_SPACE_START: u64 = 0x0000_1000_0000;

/// End of user space.
pub const USER_SPACE_END: u64 = 0x0000_8000_0000;

/// Largest single copy (64 MiB).
pub const MAX_COPY_SIZE: usize = 0x400_0000;

/// Bytes copied at once in a large copy.
pub const COPY_BLOCK_SIZE: usize = 64;

/// Offset at which the kernel maps physical memory.
pub const KERNEL_DIRECT_MAP_OFFSET: u64 = 0xFFFF_8000_0000_0000;

/// Page table entry flag bits.
pub const PTE_PRESENT: u64 = 0x1;
pub const PTE_WRITABLE: u64 = 0x2;
pub const PTE_USER_ACCESSIBLE: u64 = 0x4;
pub const PTE_ACCESSED: u64 = 0x20;
pub const PTE_DIRTY: u64 = 0x40;
pub const PTE_HUGE_PAGE: u64 = 0x80;
pub const PTE_GLOBAL: u64 = 0x100;
pub const PTE_NO_EXECUTE: u64 = 0x8000_0000_0000_0000;

/// Whether entry flags `f` have all of `mask` set.
pub open spec fn has_flag(f: u64, mask: u64) -> bool {
    f & mask == mask
}

/// Protection of a user page.
#[derive(Debug, Clone, Copy, PartialEq, Eq, Structural)]
pub struct PageProtectionFlags {
    pub readable: bool,
    pub writable: bool,
    pub executable: bool,
    pub user_accessible: bool,
}

/// The flags of a page table entry, decoded.
#[derive(Debug, Clone, Copy, PartialEq, Eq, Structural)]
pub struct PageTableInfo {
    pub present: bool,
    pub writable: bool,
    pub user_accessible: bool,
    pub no_execute: bool,
    pub global: bool,
    pub accessed: bool,
    pub dirty: bool,
}

/// The decoded flags of entry flags `f`.
pub open spec fn info_of(f: u64) -> PageTableInfo {
    PageTableInfo {
        present: has_flag(f, PTE_PRESENT),
        writable: has_flag(f, PTE_WRITABLE),
        user_accessible: has_flag(f, PTE_USER_ACCESSIBLE),
        no_execute: has_flag(f, PTE_NO_EXECUTE),
        global: has_flag(f, PTE_GLOBAL),
        accessed: has_flag(f, PTE_ACCESSED),
        dirty: has_flag(f, PTE_DIRTY),
    }
}

fn flag_set(f: u64, mask: u64) -> (r: bool)
    ensures
        r == has_flag(f, mask),
{
    (f & mask) == mask
}

impl PageTableInfo {
    /// Decodes the flags of a page table entry.
    pub fn from_flags(flags: u64) -> (r: Self)
        ensures
            r == info_of(flags),
    {
        PageTableInfo {
            present: flag_set(flags, PTE_PRESENT),
            writable: flag_set(flags, PTE_WRITABLE),
            user_accessible: flag_set(flags, PTE_USER_ACCESSIBLE),
            no_execute: flag_set(flags, PTE_NO_EXECUTE),
            global: flag_set(flags, PTE_GLOBAL),
            accessed: flag_set(flags, PTE_ACCESSED),
            dirty: flag_set(flags, PTE_DIRTY),
        }
    }
}

/// Kinds of user memory operations.
#[derive(Debug, Clone, Copy, PartialEq, Eq, Structural)]
pub enum MemoryOperation {
    CopyFromUser,
    CopyToUser,
    Validation,
    StringCopy,
}

/// What an operation in progress covers.
#[derive(Debug, Clone, Copy, PartialEq, Eq, Structural)]
pub struct PageFaultRecoveryContext {
    pub operation: MemoryOperation,
    pub start_addr: u64,
    pub end_addr: u64,
    pub is_write: bool,
    pub bytes_processed: usize,
}

/// The page fault context of a user memory operation.
#[derive(Debug, Clone, Copy, PartialEq, Eq, Structural)]
pub struct PageFaultContext {
    pub recovery_context: PageFaultRecoveryContext,
}

impl PageFaultContext {
    /// The context of an operation on `[start_addr, start_addr + len)`.
    pub fn new(operation: MemoryOperation, start_addr: u64, len: u64, is_write: bool) -> (r: Self)
        requires
            start_addr + len <= u64::MAX,
        ensures
            r.recovery_context == (PageFaultRecoveryContext {
                operation,
                start_addr,
                end_addr: (start_addr + len) as u64,
                is_write,
                bytes_processed: 0,
            }),
    {
        PageFaultContext {
            recovery_context: PageFaultRecoveryContext {
                operation,
                start_addr,
                end_addr: start_addr + len,
                is_write,
                bytes_processed: 0,
            },
        }
    }

    /// A page fault during the operation cannot be recovered: a fault
    /// outside the range or on a missing page is `InvalidAddress`, a
    /// protection fault `PermissionDenied`.
    pub fn handle_page_fault(&mut self, fault_addr: u64, error_code: u64) -> (r: Result<(), SyscallError>)
        ensures
            *final(self) == *old(self),
            r == Err::<(), SyscallError>(
                if fault_addr < old(self).recovery_context.start_addr || fault_addr >= old(self).recovery_context.end_addr || error_code & 1 == 0 {
                    SyscallError::InvalidAddress
                } else {
                    SyscallError::PermissionDenied
                },
            ),
    {
        if fault_addr < self.recovery_context.start_addr || fault_addr >= self.recovery_context.end_addr {
            return Err(SyscallError::InvalidAddress);
        }
        if error_code & 0x1 == 0 {
            return Err(SyscallError::InvalidAddress);
        }
        Err(SyscallError::PermissionDenied)
    }

    /// Records the bytes done so far.
    pub fn update_progress(&mut self, bytes_processed: usize)
        ensures
            final(self).recovery_context == (PageFaultRecoveryContext {
                bytes_processed,
                ..old(self).recovery_context
            }),
    {
        self.recovery_context.bytes_processed = bytes_processed;
    }
}

/// What the checks before the page walk decide for `[ptr, ptr + len)`:
/// `Ok(true)` when the pages must be walked, `Ok(false)` for an empty range.
pub open spec fn range_check(ptr: u64, len: u64, kernel_mode: bool) -> Result<bool, SyscallError> {
    if !kernel_mode {
        Err(SyscallError::PermissionDenied)
    } else if ptr == 0 && len > 0 {
        Err(SyscallError::InvalidAddress)
    } else if len == 0 {
        Ok(false)
    } else if ptr + len > u64::MAX {
        Err(SyscallError::InvalidAddress)
    } else if ptr < USER_SPACE_START || ptr + len > USER_SPACE_END {
        Err(SyscallError::InvalidAddress)
    } else if len > MAX_COPY_SIZE {
        Err(SyscallError::InvalidArgument)
    } else {
        Ok(true)
    }
}

/// The answer of a validation whose page walk answered `walk`.
pub open spec fn validation_result(ptr: u64, len: u64, kernel_mode: bool, walk: Result<(), SyscallError>) -> Result<(), SyscallError> {
    match range_check(ptr, len, kernel_mode) {
        Err(e) => Err(e),
        Ok(false) => Ok(()),
        Ok(true) => walk,
    }
}

/// What one level of the permission walk decides.
#[derive(Debug, Clone, Copy, PartialEq, Eq)]
pub enum PageWalkStep {
    /// Read the entry of the next level down.
    Descend,
    /// The walk ends with this answer.
    Done(Result<(), SyscallError>),
}

/// The decision of the permission walk at `level` (4 for the top table, 1
/// for the page table) on an entry with flags `f`.
pub open spec fn walk_step_spec(level: u8, f: u64, write_access: bool) -> PageWalkStep {
    if !has_flag(f, PTE_PRESENT) {
        PageWalkStep::Done(Err(SyscallError::InvalidAddress))
    } else if !has_flag(f, PTE_USER_ACCESSIBLE) {
        PageWalkStep::Done(Err(SyscallError::PermissionDenied))
    } else if level == 4 {
        if write_access && !has_flag(f, PTE_WRITABLE) {
            PageWalkStep::Done(Err(SyscallError::PermissionDenied))
        } else {
            PageWalkStep::Descend
        }
    } else if level == 3 || level == 2 {
        if write_access && !has_flag(f, PTE_WRITABLE) {
            PageWalkStep::Done(Err(SyscallError::PermissionDenied))
        } else if has_flag(f, PTE_HUGE_PAGE) {
            PageWalkStep::Done(Ok(()))
        } else {
            PageWalkStep::Descend
        }
    } else if write_access && !has_flag(f, PTE_WRITABLE) {
        PageWalkStep::Done(Err(SyscallError::PermissionDenied))
    } else {
        PageWalkStep::Done(security_check(f, write_access))
    }
}

/// The last check of a 4 KiB page: a global page is refused.
pub open spec fn security_check(f: u64, write_access: bool) -> Result<(), SyscallError> {
    if has_flag(f, PTE_GLOBAL) {
        Err(SyscallError::PermissionDenied)
    } else {
        Ok(())
    }
}

/// The answer of the permission walk over the entries `path` (top level
/// first) from `level` down.
pub open spec fn walk_spec(path: Seq<u64>, level: u8, write_access: bool) -> Result<(), SyscallError>
    decreases level,
{
    if level == 0 || path.len() < 5 - level {
        Err(SyscallError::InternalError)
    } else {
        match walk_step_spec(level, path[4 - level], write_access) {
            PageWalkStep::Done(r) => r,
            PageWalkStep::Descend => walk_spec(path, (level - 1) as u8, write_access),
        }
    }
}

/// What one level of the information walk decides.
#[derive(Debug, Clone, Copy, PartialEq, Eq)]
pub enum PageInfoStep {
    /// Read the entry of the next level down.
    Descend,
    /// The walk ends with this answer.
    Done(Result<PageTableInfo, SyscallError>),
}

/// The decision of the information walk at `level` on flags `f`: a missing
/// entry is `InvalidAddress`; a huge page at level 3 or 2, or the page
/// table entry, gives its flags.
pub open spec fn info_step_spec(level: u8, f: u64) -> PageInfoStep {
    if !has_flag(f, PTE_PRESENT) {
        PageInfoStep::Done(Err(SyscallError::InvalidAddress))
    } else if level == 4 {
        PageInfoStep::Descend
    } else if (level == 3 || level == 2) && !has_flag(f, PTE_HUGE_PAGE) {
        PageInfoStep::Descend
    } else {
        PageInfoStep::Done(Ok(info_of(f)))
    }
}

/// The answer of the information walk over `path` from `level` down.
pub open spec fn info_walk_spec(path: Seq<u64>, level: u8) -> Result<PageTableInfo, SyscallError>
    decreases level,
{
    if level == 0 || path.len() < 5 - level {
        Err(SyscallError::InternalError)
    } else {
        match info_step_spec(level, path[4 - level]) {
            PageInfoStep::Done(r) => r,
            PageInfoStep::Descend => info_walk_spec(path, (level - 1) as u8),
        }
    }
}

/// What the suspicious-pattern check answers.
pub open spec fn suspicious_spec(ptr: u64, len: u64, write_access: bool) -> Result<(), SyscallError> {
    if len > MAX_COPY_SIZE {
        Err(SyscallError::InvalidArgument)
    } else if ptr != 0 && ptr < 0x1000 {
        Err(SyscallError::InvalidAddress)
    } else if ptr >= 0x8000_0000_0000 {
        Err(SyscallError::InvalidAddress)
    } else if write_access && ptr < 0x400000 {
        Err(SyscallError::PermissionDenied)
    } else {
        Ok(())
    }
}

/// The pieces of a copy of `len` bytes, as (offset, size): one byte at a
/// time up to 64 bytes; otherwise 64-byte blocks, then the rest byte by
/// byte.
pub open spec fn copy_chunks_spec(len: nat) -> Seq<(usize, usize)> {
    if len <= COPY_BLOCK_SIZE {
        Seq::new(len, |i: int| (i as usize, 1usize))
    } else {
        let blocks = len / 64;
        Seq::new(blocks, |i: int| ((i * 64) as usize, 64usize)) + Seq::new(
            (len - blocks * 64) as nat,
            |i: int| ((blocks * 64 + i) as usize, 1usize),
        )
    }
}

/// Where the scan of `memory` for a terminator stops within `max_len`
/// bytes: the index of the first zero byte, else the end of what was read
/// or `max_len`, whichever comes first.
pub open spec fn terminator_at(memory: Seq<u8>, max_len: nat) -> nat
    decreases max_len,
{
    if max_len == 0 || memory.len() == 0 || memory[0] == 0 {
        0
    } else {
        1 + terminator_at(memory.drop_first(), (max_len - 1) as nat)
    }
}

/// What reading a terminated string of at most `max_len` bytes gives, with
/// `memory` the bytes read from `user_ptr` until a read failed with
/// `fault`: the characters of the string, or the error.
pub open spec fn string_read(user_ptr: u64, max_len: nat, memory: Seq<u8>, fault: SyscallError) -> Result<
    Seq<char>,
    SyscallError,
> {
    let k = terminator_at(memory, max_len);
    let text = memory.subrange(0, k as int);
    if user_ptr == 0 {
        Err(SyscallError::InvalidAddress)
    } else if k == memory.len() && k < max_len {
        Err(fault)
    } else if !valid_utf8(text) {
        Err(SyscallError::InvalidArgument)
    } else {
        Ok(decode_utf8(text))
    }
}

/// The scan stops at `i` when the bytes before it are not zero and `i`
/// is `max_len`, the end of `memory`, or a zero byte.
proof fn lemma_terminator_found(memory: Seq<u8>, max_len: nat, i: nat)
    requires
        i <= max_len,
        i <= memory.len(),
        forall|j: int| 0 <= j < i ==> memory[j] != 0,
        i == max_len || i == memory.len() || memory[i as int] == 0,
    ensures
        terminator_at(memory, max_len) == i,
    decreases i,
{
    if i > 0 {
        let t = memory.drop_first();
        assert forall|j: int| 0 <= j < i - 1 implies t[j] != 0 by {
            assert(t[j] == memory[j + 1]);
        }
        if i < memory.len() && i < max_len {
            assert(t[i - 1] == memory[i as int]);
        }
        lemma_terminator_found(t, (max_len - 1) as nat, (i - 1) as nat);
    }
}

/// Operations on user memory.
#[derive(Debug, Clone, Copy)]
pub struct UserSpaceMemory;

impl UserSpaceMemory {
    /// The checks before the page walk: kernel mode, no null pointer with
    /// a length, no overflow, inside user space, at most `MAX_COPY_SIZE`.
    /// `Ok(true)` when the pages must be walked, `Ok(false)` for an empty
    /// range.
    pub fn check_user_ptr(ptr: u64, len: u64, kernel_mode: bool) -> (r: Result<bool, SyscallError>)
        ensures
            r == range_check(ptr, len, kernel_mode),
    {
        if !kernel_mode {
            return Err(SyscallError::PermissionDenied);
        }
        if ptr == 0 && len > 0 {
            return Err(SyscallError::InvalidAddress);
        }
        if len == 0 {
            return Ok(false);
        }
        let end_ptr = match ptr.checked_add(len) {
            Some(e) => e,
            None => {
                return Err(SyscallError::InvalidAddress);
            },
        };
        if ptr < USER_SPACE_START || end_ptr > USER_SPACE_END {
            return Err(SyscallError::InvalidAddress);
        }
        if len > MAX_COPY_SIZE as u64 {
            return Err(SyscallError::InvalidArgument);
        }
        Ok(true)
    }

    /// Validates a user pointer: the checks of `check_user_ptr`, then the
    /// answer `walk` of the page walk over the range.
    pub fn validate_user_ptr(
        ptr: u64,
        len: u64,
        write_access: bool,
        kernel_mode: bool,
        walk: Result<(), SyscallError>,
    ) -> (r: Result<(), SyscallError>)
        ensures
            r == validation_result(ptr, len, kernel_mode, walk),
    {
        match Self::check_user_ptr(ptr, len, kernel_mode) {
            Err(e) => Err(e),
            Ok(false) => Ok(()),
            Ok(true) => walk,
        }
    }

    /// The first and last 4 KiB pages of `[start, start + len)`.
    pub fn page_range(start: u64, len: u64) -> (r: (u64, u64))
        requires
            len > 0,
            start + len - 1 <= u64::MAX,
        ensures
            r.0 == start - start % 4096,
            r.1 == (start + len - 1) - (start + len - 1) % 4096,
    {
        let end = start + (len - 1);
        (start - start % 4096, end - end % 4096)
    }

    /// The decision of the permission walk at `level` (4 for the top
    /// table, 1 for the page table) on an entry with flags `flags`.
    pub fn walk_step(level: u8, flags: u64, write_access: bool) -> (r: PageWalkStep)
        ensures
            r == walk_step_spec(level, flags, write_access),
    {
        if !flag_set(flags, PTE_PRESENT) {
            return PageWalkStep::Done(Err(SyscallError::InvalidAddress));
        }
        if !flag_set(flags, PTE_USER_ACCESSIBLE) {
            return PageWalkStep::Done(Err(SyscallError::PermissionDenied));
        }
        if level == 4 {
            if write_access && !flag_set(flags, PTE_WRITABLE) {
                return PageWalkStep::Done(Err(SyscallError::PermissionDenied));
            }
            return PageWalkStep::Descend;
        }
        if level == 3 || level == 2 {
            if write_access && !flag_set(flags, PTE_WRITABLE) {
                return PageWalkStep::Done(Err(SyscallError::PermissionDenied));
            }
            if flag_set(flags, PTE_HUGE_PAGE) {
                return PageWalkStep::Done(Ok(()));
            }
            return PageWalkStep::Descend;
        }
        if write_access && !flag_set(flags, PTE_WRITABLE) {
            return PageWalkStep::Done(Err(SyscallError::PermissionDenied));
        }
        PageWalkStep::Done(Self::validate_page_security_attributes(flags, write_access))
    }

    /// Walks the permission checks over the entries on the path to a page,
    /// top level first, as far as the walk goes: every level needs a
    /// present, user-accessible entry (writable for a write); a huge page
    /// ends the walk; a global 4 KiB page is refused.
    pub fn walk_page_table_for_permissions(path: &[u64; 4], write_access: bool) -> (r: Result<(), SyscallError>)
        ensures
            r == walk_spec(path@, 4, write_access),
    {
        let mut level: u8 = 4;
        while level > 1
            invariant
                1 <= level <= 4,
                path@.len() == 4,
                walk_spec(path@, 4, write_access) == walk_spec(path@, level, write_access),
            decreases level,
        {
            let idx: usize = (4 - level) as usize;
            match Self::walk_step(level, path[idx], write_access) {
                PageWalkStep::Done(r) => {
                    return r;
                },
                PageWalkStep::Descend => {},
            }
            level = level - 1;
        }
        match Self::walk_step(1, path[3], write_access) {
            PageWalkStep::Done(r) => r,
            PageWalkStep::Descend => {
                proof {
                    assert(false);
                }
                Err(SyscallError::InternalError)
            },
        }
    }

    /// The address at which the kernel sees physical address `phys`.
    pub fn phys_to_virt_kernel(phys: u64) -> (r: u64)
        requires
            phys + KERNEL_DIRECT_MAP_OFFSET <= u64::MAX,
        ensures
            r == phys + KERNEL_DIRECT_MAP_OFFSET,
    {
        phys + KERNEL_DIRECT_MAP_OFFSET
    }

    /// The last check of a 4 KiB page: user pages must not be global.
    pub fn validate_page_security_attributes(flags: u64, write_access: bool) -> (r: Result<(), SyscallError>)
        ensures
            r == security_check(flags, write_access),
    {
        if flag_set(flags, PTE_GLOBAL) {
            return Err(SyscallError::PermissionDenied);
        }
        Ok(())
    }

    /// The decision of the information walk at `level` on flags `flags`.
    pub fn info_step(level: u8, flags: u64) -> (r: PageInfoStep)
        ensures
            r == info_step_spec(level, flags),
    {
        if !flag_set(flags, PTE_PRESENT) {
            return PageInfoStep::Done(Err(SyscallError::InvalidAddress));
        }
        if level == 4 {
            return PageInfoStep::Descend;
        }
        if (level == 3 || level == 2) && !flag_set(flags, PTE_HUGE_PAGE) {
            return PageInfoStep::Descend;
        }
        PageInfoStep::Done(Ok(PageTableInfo::from_flags(flags)))
    }

    /// The flags of the entry that maps a page, found by walking the
    /// entries on its path (top level first): every level must be present;
    /// a huge page at the third or second level gives its own flags.
    pub fn get_page_table_info(path: &[u64; 4]) -> (r: Result<PageTableInfo, SyscallError>)
        ensures
            r == info_walk_spec(path@, 4),
    {
        let mut level: u8 = 4;
        while level > 1
            invariant
                1 <= level <= 4,
                path@.len() == 4,
                info_walk_spec(path@, 4) == info_walk_spec(path@, level),
            decreases level,
        {
            let idx: usize = (4 - level) as usize;
            match Self::info_step(level, path[idx]) {
                PageInfoStep::Done(r) => {
                    return r;
                },
                PageInfoStep::Descend => {},
            }
            level = level - 1;
        }
        match Self::info_step(1, path[3]) {
            PageInfoStep::Done(r) => r,
            PageInfoStep::Descend => {
                proof {
                    assert(false);
                }
                Err(SyscallError::InternalError)
            },
        }
    }

    /// The protection of the user page at `addr`, from `info`, the flags
    /// found by the information walk: `InvalidAddress` outside user space
    /// or when the walk failed.
    pub fn get_page_protection(addr: u64, info: Result<PageTableInfo, SyscallError>) -> (r: Result<
        PageProtectionFlags,
        SyscallError,
    >)
        ensures
            addr < USER_SPACE_START || addr >= USER_SPACE_END ==> r == Err::<PageProtectionFlags, SyscallError>(
                SyscallError::InvalidAddress,
            ),
            !(addr < USER_SPACE_START || addr >= USER_SPACE_END) ==> match info {
                Err(e) => r == Err::<PageProtectionFlags, SyscallError>(e),
                Ok(i) => r == Ok::<PageProtectionFlags, SyscallError>(
                    PageProtectionFlags {
                        readable: i.present && i.user_accessible,
                        writable: i.writable,
                        executable: !i.no_execute,
                        user_accessible: i.user_accessible,
                    },
                ),
            },
    {
        if addr < USER_SPACE_START || addr >= USER_SPACE_END {
            return Err(SyscallError::InvalidAddress);
        }
        let page_info = match info {
            Ok(i) => i,
            Err(e) => {
                return Err(e);
            },
        };
        Ok(
            PageProtectionFlags {
                readable: page_info.present && page_info.user_accessible,
                writable: page_info.writable,
                executable: !page_info.no_execute,
                user_accessible: page_info.user_accessible,
            },
        )
    }

    /// Copies `buffer.len()` bytes of user memory at `user_ptr` into
    /// `buffer`. `memory` holds the bytes read from `user_ptr` on until a
    /// read failed with `fault` (or as many as asked for), and `walk` is
    /// the page walk of the range. A range that fails validation gives its
    /// error and reads nothing; otherwise the bytes are copied, and a copy
    /// that reaches the failed read keeps the bytes before it and answers
    /// `fault`.
    pub fn copy_from_user(
        user_ptr: u64,
        buffer: &mut [u8],
        memory: &[u8],
        fault: SyscallError,
        kernel_mode: bool,
        walk: Result<(), SyscallError>,
    ) -> (r: Result<(), SyscallError>)
        ensures
            final(buffer)@.len() == old(buffer)@.len(),
            match validation_result(user_ptr, old(buffer)@.len() as u64, kernel_mode, walk) {
                Err(e) => r == Err::<(), SyscallError>(e) && final(buffer)@ == old(buffer)@,
                Ok(_) => if memory@.len() >= old(buffer)@.len() {
                    r is Ok && final(buffer)@ == memory@.subrange(0, old(buffer)@.len() as int)
                } else {
                    r == Err::<(), SyscallError>(fault) && final(buffer)@ == memory@ + old(buffer)@.subrange(
                        memory@.len() as int,
                        old(buffer)@.len() as int,
                    )
                },
            },
    {
        let len = buffer.len();
        match Self::validate_user_ptr(user_ptr, len as u64, false, kernel_mode, walk) {
            Err(e) => {
                return Err(e);
            },
            Ok(()) => {},
        }
        let ghost before = buffer@;
        let mut i: usize = 0;
        while i < len && i < memory.len()
            invariant
                len == before.len(),
                buffer@.len() == len,
                i <= len,
                i <= memory@.len(),
                buffer@ == memory@.subrange(0, i as int) + before.subrange(i as int, len as int),
            decreases len - i,
        {
            buffer[i] = memory[i];
            assert(buffer@ =~= memory@.subrange(0, i + 1) + before.subrange(i + 1, len as int));
            i = i + 1;
        }
        if i < len {
            assert(i == memory@.len());
            assert(memory@.subrange(0, i as int) =~= memory@);
            return Err(fault);
        }
        assert(before.subrange(len as int, len as int) =~= Seq::<u8>::empty());
        assert(buffer@ =~= memory@.subrange(0, len as int));
        Ok(())
    }

    /// Copies `buffer` to user memory at `user_ptr`. `memory` is the user
    /// memory from `user_ptr` on that writes reach before one fails with
    /// `fault`, and `walk` is the page walk of the range. A range that
    /// fails validation gives its error and writes nothing; otherwise the
    /// bytes are written, and a copy that reaches the failed write keeps
    /// the bytes written before it and answers `fault`. No other byte
    /// changes.
    pub fn copy_to_user(
        user_ptr: u64,
        buffer: &[u8],
        memory: &mut [u8],
        fault: SyscallError,
        kernel_mode: bool,
        walk: Result<(), SyscallError>,
    ) -> (r: Result<(), SyscallError>)
        ensures
            final(memory)@.len() == old(memory)@.len(),
            match validation_result(user_ptr, buffer@.len() as u64, kernel_mode, walk) {
                Err(e) => r == Err::<(), SyscallError>(e) && final(memory)@ == old(memory)@,
                Ok(_) => if old(memory)@.len() >= buffer@.len() {
                    r is Ok && final(memory)@ == buffer@ + old(memory)@.subrange(
                        buffer@.len() as int,
                        old(memory)@.len() as int,
                    )
                } else {
                    r == Err::<(), SyscallError>(fault) && final(memory)@ == buffer@.subrange(0, old(memory)@.len() as int)
                },
            },
    {
        let len = buffer.len();
        match Self::validate_user_ptr(user_ptr, len as u64, true, kernel_mode, walk) {
            Err(e) => {
                return Err(e);
            },
            Ok(()) => {},
        }
        let ghost before = memory@;
        let mut i: usize = 0;
        while i < len && i < memory.len()
            invariant
                len == buffer@.len(),
                memory@.len() == before.len(),
                i <= len,
                i <= before.len(),
                memory@ == buffer@.subrange(0, i as int) + before.subrange(i as int, before.len() as int),
            decreases len - i,
        {
            memory[i] = buffer[i];
            assert(memory@ =~= buffer@.subrange(0, i + 1) + before.subrange(i + 1, before.len() as int));
            i = i + 1;
        }
        if i < len {
            assert(before.subrange(i as int, before.len() as int) =~= Seq::<u8>::empty());
            assert(memory@ =~= buffer@.subrange(0, before.len() as int));
            return Err(fault);
        }
        assert(buffer@.subrange(0, len as int) =~= buffer@);
        Ok(())
    }

    /// The pieces in which a copy of `len` bytes is done and checked.
    pub fn copy_chunks(len: usize) -> (r: Vec<(usize, usize)>)
        ensures
            r@ == copy_chunks_spec(len as nat),
    {
        let mut out: Vec<(usize, usize)> = Vec::new();
        let mut copied: usize = 0;
        if len > COPY_BLOCK_SIZE {
            while copied <= len - COPY_BLOCK_SIZE
                invariant
                    len > COPY_BLOCK_SIZE,
                    copied % 64 == 0,
                    copied <= len,
                    out@ == Seq::new((copied / 64) as nat, |i: int| ((i * 64) as usize, 64usize)),
                decreases len - copied,
            {
                out.push((copied, COPY_BLOCK_SIZE));
                assert(out@ =~= Seq::new(((copied + 64) / 64) as nat, |i: int| ((i * 64) as usize, 64usize)));
                copied = copied + COPY_BLOCK_SIZE;
            }
            assert(copied / 64 == len / 64);
        }
        let ghost head = out@;
        let ghost start = copied;
        while copied < len
            invariant
                start <= copied <= len,
                out@ == head + Seq::new((copied - start) as nat, |i: int| ((start + i) as usize, 1usize)),
            decreases len - copied,
        {
            out.push((copied, 1));
            assert(out@ =~= head + Seq::new((copied + 1 - start) as nat, |i: int| ((start + i) as usize, 1usize)));
            copied = copied + 1;
        }
        proof {
            if len <= COPY_BLOCK_SIZE {
                assert(head.len() == 0);
                assert(out@ =~= copy_chunks_spec(len as nat));
            } else {
                assert(start == (len / 64) * 64);
                assert(out@ =~= copy_chunks_spec(len as nat));
            }
        }
        out
    }

    /// The string read from user memory at `user_ptr`, at most `max_len`
    /// bytes, up to the first zero byte. `memory` holds the bytes read from
    /// `user_ptr` on, in order, until a read failed or `max_len` were read;
    /// `fault` is the error of the read that failed. `InvalidAddress` for a
    /// null pointer; `fault` when the scan reaches the failed read; the
    /// bytes before the terminator must be UTF-8 (`InvalidArgument`).
    pub fn copy_string_from_user(user_ptr: u64, max_len: usize, memory: &[u8], fault: SyscallError) -> (r: Result<
        String,
        SyscallError,
    >)
        ensures
            match string_read(user_ptr, max_len as nat, memory@, fault) {
                Ok(t) => r matches Ok(s) && s@ == t,
                Err(e) => r == Err::<String, SyscallError>(e),
            },
    {
        if user_ptr == 0 {
            return Err(SyscallError::InvalidAddress);
        }
        let mut result: Vec<u8> = Vec::new();
        let mut i: usize = 0;
        let mut done = false;
        while !done && i < max_len
            invariant
                user_ptr != 0,
                i <= max_len,
                i <= memory@.len() || done,
                !done ==> result@ == memory@.subrange(0, i as int),
                !done ==> forall|j: int| 0 <= j < i ==> memory@[j] != 0,
                done ==> i < max_len && i == memory@.len() && forall|j: int| 0 <= j < i ==> memory@[j] != 0,
            decreases max_len - i, (if done { 0int } else { 1int }),
        {
            if i >= memory.len() {
                done = true;
            } else {
                let byte = memory[i];
                if byte == 0 {
                    proof {
                        assert(terminator_at(memory@, max_len as nat) == i) by {
                            lemma_terminator_found(memory@, max_len as nat, i as nat);
                        }
                        assert(result@ == memory@.subrange(0, i as int));
                        assert(i < memory@.len());
                        assert(string_read(user_ptr, max_len as nat, memory@, fault) == (if !valid_utf8(result@) {
                            Err::<Seq<char>, SyscallError>(SyscallError::InvalidArgument)
                        } else {
                            Ok::<Seq<char>, SyscallError>(decode_utf8(result@))
                        }));
                    }
                    return match utf8_to_string(result.as_slice()) {
                        Some(s) => Ok(s),
                        None => Err(SyscallError::InvalidArgument),
                    };
                }
                result.push(byte);
                i = i + 1;
            }
        }
        if done {
            proof {
                lemma_terminator_found(memory@, max_len as nat, i as nat);
            }
            return Err(fault);
        }
        proof {
            lemma_terminator_found(memory@, max_len as nat, i as nat);
        }
        match utf8_to_string(result.as_slice()) {
            Some(s) => Ok(s),
            None => Err(SyscallError::InvalidArgument),
        }
    }

    /// Copies `s` and a terminating zero byte to user memory at `user_ptr`:
    /// the whole range is validated (`walk_all`), the string's bytes are
    /// copied as `copy_to_user` does (`walk_bytes`), then the zero byte is
    /// written after them, its own byte validated (`walk_nul`). `memory` is
    /// the user memory from `user_ptr` on that writes reach before one
    /// fails with `fault`. Each step's error is answered and stops the copy.
    pub fn copy_string_to_user(
        user_ptr: u64,
        s: &str,
        memory: &mut [u8],
        fault: SyscallError,
        kernel_mode: bool,
        walk_all: Result<(), SyscallError>,
        walk_bytes: Result<(), SyscallError>,
        walk_nul: Result<(), SyscallError>,
    ) -> (r: Result<(), SyscallError>)
        requires
            s.spec_bytes().len() < usize::MAX,
            user_ptr + s.spec_bytes().len() <= u64::MAX,
        ensures
            final(memory)@.len() == old(memory)@.len(),
            ({
                let b = s.spec_bytes();
                let n = b.len();
                let m = old(memory)@;
                match validation_result(user_ptr, (n + 1) as u64, kernel_mode, walk_all) {
                    Err(e) => r == Err::<(), SyscallError>(e) && final(memory)@ == m,
                    Ok(_) => match validation_result(user_ptr, n as u64, kernel_mode, walk_bytes) {
                        Err(e) => r == Err::<(), SyscallError>(e) && final(memory)@ == m,
                        Ok(_) => if m.len() < n {
                            r == Err::<(), SyscallError>(fault) && final(memory)@ == b.subrange(0, m.len() as int)
                        } else {
                            match validation_result((user_ptr + n) as u64, 1, kernel_mode, walk_nul) {
                                Err(e) => r == Err::<(), SyscallError>(e) && final(memory)@ == b + m.subrange(
                                    n as int,
                                    m.len() as int,
                                ),
                                Ok(_) => if m.len() > n {
                                    r is Ok && final(memory)@ == b + seq![0u8] + m.subrange(n as int + 1, m.len() as int)
                                } else {
                                    r == Err::<(), SyscallError>(fault) && final(memory)@ == b
                                },
                            }
                        },
                    },
                }
            }),
    {
        let bytes = s.as_bytes();
        let n = bytes.len();
        let total_len = n + 1;
        match Self::validate_user_ptr(user_ptr, total_len as u64, true, kernel_mode, walk_all) {
            Err(e) => {
                return Err(e);
            },
            Ok(()) => {},
        }
        let ghost m = memory@;
        match Self::copy_to_user(user_ptr, bytes, memory, fault, kernel_mode, walk_bytes) {
            Err(e) => {
                return Err(e);
            },
            Ok(()) => {},
        }
        let nul_ptr = user_ptr + n as u64;
        match Self::validate_user_ptr(nul_ptr, 1, true, kernel_mode, walk_nul) {
            Err(e) => {
                return Err(e);
            },
            Ok(()) => {},
        }
        if n < memory.len() {
            memory[n] = 0;
            assert(memory@ =~= bytes@ + seq![0u8] + m.subrange(n + 1, m.len() as int));
            Ok(())
        } else {
            assert(m.subrange(n as int, m.len() as int) =~= Seq::<u8>::empty());
            assert(memory@ =~= bytes@);
            Err(fault)
        }
    }

    /// Whether code running at `privilege_level` may reach user memory on
    /// the kernel's behalf: only in kernel mode, ring 0. The level itself
    /// is read from the code segment by the caller.
    pub fn can_access_user_memory(privilege_level: u16) -> (r: bool)
        ensures
            r == (privilege_level == 0),
    {
        privilege_level == 0
    }

    /// Validates one byte at `addr`.
    pub fn probe_user_address(addr: u64, write_access: bool, kernel_mode: bool, walk: Result<(), SyscallError>) -> (r:
        Result<(), SyscallError>)
        ensures
            r == validation_result(addr, 1, kernel_mode, walk),
    {
        Self::validate_user_ptr(addr, 1, write_access, kernel_mode, walk)
    }

    /// Validation with the suspicious-pattern check after it; the process
    /// and the alignment of large ranges are looked at without effect.
    pub fn validate_user_range_enhanced(
        ptr: u64,
        len: u64,
        write_access: bool,
        process_id: Option<u32>,
        kernel_mode: bool,
        walk: Result<(), SyscallError>,
    ) -> (r: Result<(), SyscallError>)
        ensures
            r == match validation_result(ptr, len, kernel_mode, walk) {
                Err(e) => Err(e),
                Ok(_) => suspicious_spec(ptr, len, write_access),
            },
    {
        match Self::validate_user_ptr(ptr, len, write_access, kernel_mode, walk) {
            Err(e) => {
                return Err(e);
            },
            Ok(()) => {},
        }
        match Self::detect_suspicious_access_patterns(ptr, len, write_access) {
            Err(e) => {
                return Err(e);
            },
            Ok(()) => {},
        }
        if len > 4096 {
            let _ = Self::validate_memory_alignment(ptr, len);
        }
        Ok(())
    }

    /// Refuses oversized ranges (`InvalidArgument`), very low or kernel
    /// addresses (`InvalidAddress`) and writes to low memory
    /// (`PermissionDenied`).
    pub fn detect_suspicious_access_patterns(ptr: u64, len: u64, write_access: bool) -> (r: Result<(), SyscallError>)
        ensures
            r == suspicious_spec(ptr, len, write_access),
    {
        if len > MAX_COPY_SIZE as u64 {
            return Err(SyscallError::InvalidArgument);
        }
        if ptr != 0 && ptr < 0x1000 {
            return Err(SyscallError::InvalidAddress);
        }
        if ptr >= 0x8000_0000_0000 {
            return Err(SyscallError::InvalidAddress);
        }
        if write_access && ptr < 0x400000 {
            return Err(SyscallError::PermissionDenied);
        }
        Ok(())
    }

    /// Alignment is advisory: any range is accepted.
    pub fn validate_memory_alignment(ptr: u64, len: u64) -> (r: Result<(), SyscallError>)
        ensures
            r is Ok,
    {
        Ok(())
    }

    /// The first and last pages whose TLB entries to flush for
    /// `[start_addr, start_addr + len)`: `InvalidAddress` outside user
    /// space.
    pub fn flush_user_tlb_range(start_addr: u64, len: u64) -> (r: Result<(u64, u64), SyscallError>)
        requires
            start_addr + len <= u64::MAX,
            start_addr >= USER_SPACE_START && start_addr + len <= USER_SPACE_END ==> len > 0,
        ensures
            start_addr < USER_SPACE_START || start_addr + len > USER_SPACE_END ==> r == Err::<(u64, u64), SyscallError>(
                SyscallError::InvalidAddress,
            ),
            !(start_addr < USER_SPACE_START || start_addr + len > USER_SPACE_END) ==> r == Ok::<
                (u64, u64),
                SyscallError,
            >(
                (
                    (start_addr - start_addr % 4096) as u64,
                    ((start_addr + len - 1) - (start_addr + len - 1) % 4096) as u64,
                ),
            ),
    {
        if start_addr < USER_SPACE_START || start_addr + len > USER_SPACE_END {
            return Err(SyscallError::InvalidAddress);
        }
        Ok(Self::page_range(start_addr, len))
    }
}

/// Counters of user memory operations.
#[derive(Debug, Clone, Copy, PartialEq, Eq, Structural)]
pub struct MemoryOperationStats {
    pub copy_from_user_calls: u64,
    pub copy_to_user_calls: u64,
    pub validation_calls: u64,
    pub bytes_copied_from_user: u64,
    pub bytes_copied_to_user: u64,
    pub validation_failures: u64,
    pub page_fault_recoveries: u64,
}

impl Default for MemoryOperationStats {
    fn default() -> (r: Self)
        ensures
            r == (MemoryOperationStats {
                copy_from_user_calls: 0,
                copy_to_user_calls: 0,
                validation_calls: 0,
                bytes_copied_from_user: 0,
                bytes_copied_to_user: 0,
                validation_failures: 0,
                page_fault_recoveries: 0,
            }),
    {
        MemoryOperationStats {
            copy_from_user_calls: 0,
            copy_to_user_calls: 0,
            validation_calls: 0,
            bytes_copied_from_user: 0,
            bytes_copied_to_user: 0,
            validation_failures: 0,
            page_fault_recoveries: 0,
        }
    }
}

/// One counted copy request: where, how much, in which direction, in
/// which mode, and what the page walk of the enhanced validation found.
#[derive(Debug, Clone, Copy)]
pub struct CopyCheck {
    pub user_ptr: u64,
    pub len: u64,
    pub write_access: bool,
    pub kernel_mode: bool,
    pub walk: Result<(), SyscallError>,
}

/// Whether a copy request passes the kernel-mode check and the enhanced
/// validation, and is therefore counted.
pub open spec fn counted(c: CopyCheck) -> bool {
    &&& c.kernel_mode
    &&& validation_result(c.user_ptr, c.len, c.kernel_mode, c.walk) is Ok
    &&& suspicious_spec(c.user_ptr, c.len, c.write_access) is Ok
}

/// The count after the requests `cs`, starting from `start` (wrapping).
pub open spec fn stats_after(start: u64, cs: Seq<CopyCheck>) -> u64
    decreases cs.len(),
{
    if cs.len() == 0 {
        start
    } else {
        let before = stats_after(start, cs.drop_last());
        if counted(cs.last()) {
            vstd::wrapping::u64_specs::wrapping_add(before, 1)
        } else {
            before
        }
    }
}

/// How many of the requests `cs` are counted.
pub open spec fn counted_calls(cs: Seq<CopyCheck>) -> nat
    decreases cs.len(),
{
    if cs.len() == 0 {
        0
    } else {
        counted_calls(cs.drop_last()) + if counted(cs.last()) {
            1nat
        } else {
            0nat
        }
    }
}

/// Starting from a fresh count, the count after any sequence of copy
/// requests is the number of them that passed the kernel-mode check and
/// the enhanced validation (modulo 2^64).
pub proof fn lemma_stats_count(cs: Seq<CopyCheck>)
    ensures
        stats_after(0, cs) == counted_calls(cs) % 0x1_0000_0000_0000_0000,
    decreases cs.len(),
{
    if cs.len() > 0 {
        lemma_stats_count(cs.drop_last());
        let prev = counted_calls(cs.drop_last());
        assert((prev + 1) % 0x1_0000_0000_0000_0000 == ((prev % 0x1_0000_0000_0000_0000) + 1) % 0x1_0000_0000_0000_0000)
            by (nonlinear_arith);
    }
}

/// User memory operations with enhanced checks and a count of operations.
#[derive(Debug)]
pub struct EnhancedUserSpaceMemory {
    stats: u64,
}

impl EnhancedUserSpaceMemory {
    /// The operations counted so far.
    pub closed spec fn stats_spec(&self) -> u64 {
        self.stats
    }

    /// No operation counted.
    pub fn new() -> (r: Self)
        ensures
            r.stats_spec() == 0,
    {
        EnhancedUserSpaceMemory { stats: 0 }
    }

    fn enhanced(
        &mut self,
        user_ptr: u64,
        len: usize,
        write_access: bool,
        process_id: Option<u32>,
        kernel_mode: bool,
        walk_range: Result<(), SyscallError>,
        walk_copy: Result<(), SyscallError>,
    ) -> (r: Result<(), SyscallError>)
        ensures
            !kernel_mode ==> r == Err::<(), SyscallError>(SyscallError::PermissionDenied) && final(self).stats_spec()
                == old(self).stats_spec(),
            kernel_mode ==> match (match validation_result(user_ptr, len as u64, kernel_mode, walk_range) {
                Err(e) => Err::<(), SyscallError>(e),
                Ok(_) => suspicious_spec(user_ptr, len as u64, write_access),
            }) {
                Err(e) => r == Err::<(), SyscallError>(e) && final(self).stats_spec() == old(self).stats_spec(),
                Ok(_) => r == validation_result(user_ptr, len as u64, kernel_mode, walk_copy)
                    && final(self).stats_spec() == old(self).stats_spec().wrapping_add(1),
            },
    {
        if !kernel_mode {
            return Err(SyscallError::PermissionDenied);
        }
        match UserSpaceMemory::validate_user_range_enhanced(
            user_ptr,
            len as u64,
            write_access,
            process_id,
            kernel_mode,
            walk_range,
        ) {
            Err(e) => {
                return Err(e);
            },
            Ok(()) => {},
        }
        self.stats = self.stats.wrapping_add(1);
        UserSpaceMemory::validate_user_ptr(user_ptr, len as u64, write_access, kernel_mode, walk_copy)
    }

    /// Checks a copy of `len` bytes from user memory and counts it: kernel
    /// mode, the enhanced validation (`walk_range` is its page walk), then
    /// the copy's own validation (`walk_copy`); the caller copies on `Ok`.
    pub fn copy_from_user_enhanced(
        &mut self,
        user_ptr: u64,
        len: usize,
        process_id: Option<u32>,
        kernel_mode: bool,
        walk_range: Result<(), SyscallError>,
        walk_copy: Result<(), SyscallError>,
    ) -> (r: Result<(), SyscallError>)
        ensures
            !kernel_mode ==> r == Err::<(), SyscallError>(SyscallError::PermissionDenied) && final(self).stats_spec()
                == old(self).stats_spec(),
            kernel_mode ==> match (match validation_result(user_ptr, len as u64, kernel_mode, walk_range) {
                Err(e) => Err::<(), SyscallError>(e),
                Ok(_) => suspicious_spec(user_ptr, len as u64, false),
            }) {
                Err(e) => r == Err::<(), SyscallError>(e) && final(self).stats_spec() == old(self).stats_spec(),
                Ok(_) => r == validation_result(user_ptr, len as u64, kernel_mode, walk_copy)
                    && final(self).stats_spec() == old(self).stats_spec().wrapping_add(1),
            },
            final(self).stats_spec() == stats_after(
                old(self).stats_spec(),
                seq![CopyCheck { user_ptr, len: len as u64, write_access: false, kernel_mode, walk: walk_range }],
            ),
    {
        let ghost before = self.stats_spec();
        let r = self.enhanced(user_ptr, len, false, process_id, kernel_mode, walk_range, walk_copy);
        proof {
            let c = CopyCheck { user_ptr, len: len as u64, write_access: false, kernel_mode, walk: walk_range };
            let cs = seq![c];
            assert(cs.drop_last() =~= Seq::<CopyCheck>::empty());
            assert(cs.last() == c);
            assert(stats_after(before, cs.drop_last()) == before);
        }
        r
    }

    /// Checks a copy of `len` bytes to user memory and counts it, as
    /// `copy_from_user_enhanced` does for a write.
    pub fn copy_to_user_enhanced(
        &mut self,
        user_ptr: u64,
        len: usize,
        process_id: Option<u32>,
        kernel_mode: bool,
        walk_range: Result<(), SyscallError>,
        walk_copy: Result<(), SyscallError>,
    ) -> (r: Result<(), SyscallError>)
        ensures
            !kernel_mode ==> r == Err::<(), SyscallError>(SyscallError::PermissionDenied) && final(self).stats_spec()
                == old(self).stats_spec(),
            kernel_mode ==> match (match validation_result(user_ptr, len as u64, kernel_mode, walk_range) {
                Err(e) => Err::<(), SyscallError>(e),
                Ok(_) => suspicious_spec(user_ptr, len as u64, true),
            }) {
                Err(e) => r == Err::<(), SyscallError>(e) && final(self).stats_spec() == old(self).stats_spec(),
                Ok(_) => r == validation_result(user_ptr, len as u64, kernel_mode, walk_copy)
                    && final(self).stats_spec() == old(self).stats_spec().wrapping_add(1),
            },
            final(self).stats_spec() == stats_after(
                old(self).stats_spec(),
                seq![CopyCheck { user_ptr, len: len as u64, write_access: true, kernel_mode, walk: walk_range }],
            ),
    {
        let ghost before = self.stats_spec();
        let r = self.enhanced(user_ptr, len, true, process_id, kernel_mode, walk_range, walk_copy);
        proof {
            let c = CopyCheck { user_ptr, len: len as u64, write_access: true, kernel_mode, walk: walk_range };
            let cs = seq![c];
            assert(cs.drop_last() =~= Seq::<CopyCheck>::empty());
            assert(cs.last() == c);
            assert(stats_after(before, cs.drop_last()) == before);
        }
        r
    }

    /// The enhanced validation.
    pub fn validate_user_ptr_enhanced(
        &self,
        user_ptr: u64,
        len: u64,
        write_access: bool,
        process_id: Option<u32>,
        kernel_mode: bool,
        walk: Result<(), SyscallError>,
    ) -> (r: Result<(), SyscallError>)
        ensures
            r == match validation_result(user_ptr, len, kernel_mode, walk) {
                Err(e) => Err(e),
                Ok(_) => suspicious_spec(user_ptr, len, write_access),
            },
    {
        UserSpaceMemory::validate_user_range_enhanced(user_ptr, len, write_access, process_id, kernel_mode, walk)
    }

    /// The operations counted.
    pub fn get_stats(&self) -> (r: u64)
        ensures
            r == self.stats_spec(),
    {
        self.stats
    }
}


/// What a copy between kernel and user memory asks for next.
#[derive(Debug, Clone, Copy, PartialEq, Eq, Structural)]
pub enum CopyAction {
    /// Validate the 64-byte block at `offset` and copy it whole.
    CopyBlock { offset: usize },
    /// Validate the byte at `offset` and copy it.
    CopyByte { offset: usize },
    /// Every byte has been copied.
    Done,
    /// The copy stops with this error.
    Fail(SyscallError),
}

/// What came of the access that a copy asked for last.
#[derive(Debug, Clone, Copy, PartialEq, Eq)]
pub enum CopyEvent {
    /// Nothing was asked for yet.
    Started,
    /// The block: what its validation answered, and whether its copy went
    /// through.
    Block { valid: Result<(), SyscallError>, copied: bool },
    /// The byte: what its validation answered (the byte is copied when
    /// that is `Ok`).
    Byte(Result<(), SyscallError>),
}

/// The access that comes once the first `done` of `len` bytes are copied:
/// a whole block where one fits from a block boundary, else one byte.
pub open spec fn next_copy(done: nat, len: nat) -> CopyAction {
    if done >= len {
        CopyAction::Done
    } else if done % 64 == 0 && done + 64 <= len {
        CopyAction::CopyBlock { offset: done as usize }
    } else {
        CopyAction::CopyByte { offset: done as usize }
    }
}

/// Each access that a copy asks for starts where the copied bytes end and
/// stays within the `len` bytes, so a copy whose accesses all succeed
/// covers every byte once, in order, and ends exactly when all are copied.
pub proof fn lemma_copy_covers(done: nat, len: nat)
    requires
        done <= len,
        len <= usize::MAX,
    ensures
        next_copy(done, len) is Done <==> done == len,
        next_copy(done, len) matches CopyAction::CopyBlock { offset } ==> offset == done && done + 64 <= len,
        next_copy(done, len) matches CopyAction::CopyByte { offset } ==> offset == done && done + 1 <= len,
{
}

impl UserSpaceMemory {
    /// The access that comes once the first `done` of `len` bytes are copied.
    pub fn next_copy_action(done: usize, len: usize) -> (r: CopyAction)
        ensures
            r == next_copy(done as nat, len as nat),
    {
        if done >= len {
            CopyAction::Done
        } else if done % COPY_BLOCK_SIZE == 0 && len - done >= COPY_BLOCK_SIZE {
            CopyAction::CopyBlock { offset: done }
        } else {
            CopyAction::CopyByte { offset: done }
        }
    }

    /// One step of a copy of `len` bytes between kernel and user memory,
    /// `done` of them copied so far, given what came of the last access.
    /// A validation that fails stops the copy with its error; a block copy
    /// that does not go through is redone byte by byte; each copied block
    /// or byte advances the progress recorded in `ctx`.
    pub fn copy_step(ctx: &mut PageFaultContext, done: usize, len: usize, event: CopyEvent) -> (r: CopyAction)
        requires
            done <= len,
            event is Started ==> done == 0,
            event is Block ==> done % 64 == 0 && done + 64 <= len,
            event is Byte ==> done < len,
        ensures
            match event {
                CopyEvent::Started => r == next_copy(0, len as nat) && *final(ctx) == *old(ctx),
                CopyEvent::Block { valid: Err(e), .. } => r == CopyAction::Fail(e) && *final(ctx) == *old(ctx),
                CopyEvent::Block { valid: Ok(_), copied: false } => r == (CopyAction::CopyByte { offset: done })
                    && *final(ctx) == *old(ctx),
                CopyEvent::Block { valid: Ok(_), copied: true } => r == next_copy((done + 64) as nat, len as nat)
                    && final(ctx).recovery_context == (PageFaultRecoveryContext {
                    bytes_processed: (done + 64) as usize,
                    ..old(ctx).recovery_context
                }),
                CopyEvent::Byte(Err(e)) => r == CopyAction::Fail(e) && *final(ctx) == *old(ctx),
                CopyEvent::Byte(Ok(_)) => r == next_copy((done + 1) as nat, len as nat) && final(ctx).recovery_context == (
                PageFaultRecoveryContext { bytes_processed: (done + 1) as usize, ..old(ctx).recovery_context }),
            },
    {
        match event {
            CopyEvent::Started => Self::next_copy_action(0, len),
            CopyEvent::Block { valid: Err(e), .. } => CopyAction::Fail(e),
            CopyEvent::Block { valid: Ok(_), copied } => {
                if !copied {
                    return CopyAction::CopyByte { offset: done };
                }
                let next = done + COPY_BLOCK_SIZE;
                ctx.update_progress(next);
                Self::next_copy_action(next, len)
            },
            CopyEvent::Byte(Err(e)) => CopyAction::Fail(e),
            CopyEvent::Byte(Ok(_)) => {
                let next = done + 1;
                ctx.update_progress(next);
                Self::next_copy_action(next, len)
            },
        }
    }
}

} // verus!
