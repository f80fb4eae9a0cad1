use rustos::memory::user_space::{
    CopyAction, CopyEvent,
    EnhancedUserSpaceMemory, MemoryOperation, PageFaultContext, PageProtectionFlags, PageTableInfo,
    SyscallError, UserSpaceMemory, MAX_COPY_SIZE, PTE_PRESENT, PTE_USER_ACCESSIBLE, PTE_WRITABLE, USER_SPACE_END,
    USER_SPACE_START,
};

#[test]
fn test_user_ptr_validation() {
    assert!(UserSpaceMemory::validate_user_ptr(0, 0, false, true, Ok(())).is_ok());
    assert!(UserSpaceMemory::validate_user_ptr(0, 1, false, true, Ok(())).is_err());
    assert!(UserSpaceMemory::validate_user_ptr(u64::MAX, 1, false, true, Ok(())).is_err());
    assert!(UserSpaceMemory::validate_user_ptr(0x8000_0000_0000, 1, false, true, Ok(())).is_err());
    assert!(UserSpaceMemory::validate_user_ptr(USER_SPACE_START, (MAX_COPY_SIZE + 1) as u64, false, true, Ok(())).is_err());
}

#[test]
fn test_enhanced_validation() {
    let result = UserSpaceMemory::validate_user_range_enhanced(USER_SPACE_START, 4096, false, Some(123), true, Ok(()));
    let _ = result;
}

#[test]
fn test_suspicious_access_detection() {
    assert!(UserSpaceMemory::detect_suspicious_access_patterns(0x100, 1, false).is_err());
    assert!(UserSpaceMemory::detect_suspicious_access_patterns(0x8000_0000_0000, 1, false).is_err());
    assert!(UserSpaceMemory::detect_suspicious_access_patterns(USER_SPACE_START, (MAX_COPY_SIZE + 1) as u64, false).is_err());
}

#[test]
fn test_page_protection_flags() {
    let flags = PageProtectionFlags { readable: true, writable: false, executable: false, user_accessible: true };
    assert!(flags.readable);
    assert!(!flags.writable);
    assert!(!flags.executable);
    assert!(flags.user_accessible);
}

#[test]
fn test_page_table_info() {
    let flags = PTE_PRESENT | PTE_USER_ACCESSIBLE | PTE_WRITABLE;
    let info = PageTableInfo::from_flags(flags);
    assert!(info.present);
    assert!(info.user_accessible);
    assert!(info.writable);
    assert!(!info.no_execute);
}

#[test]
fn test_memory_operation_types() {
    assert_eq!(MemoryOperation::CopyFromUser, MemoryOperation::CopyFromUser);
    assert_ne!(MemoryOperation::CopyFromUser, MemoryOperation::CopyToUser);
}

#[test]
fn test_page_fault_context() {
    let context = PageFaultContext::new(MemoryOperation::CopyFromUser, USER_SPACE_START, 4096, false);
    assert_eq!(context.recovery_context.operation, MemoryOperation::CopyFromUser);
    assert_eq!(context.recovery_context.start_addr, USER_SPACE_START);
    assert_eq!(context.recovery_context.end_addr, USER_SPACE_START + 4096);
    assert!(!context.recovery_context.is_write);
}

#[test]
fn test_user_space_boundaries() {
    assert!(USER_SPACE_START < USER_SPACE_END);
    assert!(USER_SPACE_END <= 0x8000_0000_0000);
}

#[test]
fn test_copy_size_limits() {
    assert!(MAX_COPY_SIZE > 0);
    assert!(MAX_COPY_SIZE <= 1024 * 1024 * 1024);
}

#[test]
fn test_enhanced_user_space_memory() {
    let enhanced = EnhancedUserSpaceMemory::new();
    assert_eq!(enhanced.get_stats(), 0);
    assert!(enhanced.get_stats() == 0);
}

#[test]
fn test_memory_alignment_validation() {
    assert!(UserSpaceMemory::validate_memory_alignment(0x1000, 4096).is_ok());
    assert!(UserSpaceMemory::validate_memory_alignment(0x1001, 4096).is_ok());
    assert!(UserSpaceMemory::validate_memory_alignment(0x1000, 8).is_ok());
}

#[test]
fn kernel_mode_required_for_user_pointers() {
    assert!(UserSpaceMemory::validate_user_ptr(USER_SPACE_START, 16, false, false, Ok(())).is_err());
    assert!(UserSpaceMemory::validate_user_ptr(USER_SPACE_START, 16, false, true, Ok(())).is_ok());
}

#[test]
fn low_writes_are_suspicious() {
    assert!(UserSpaceMemory::detect_suspicious_access_patterns(0x2000, 8, true).is_err());
    assert!(UserSpaceMemory::detect_suspicious_access_patterns(0x2000, 8, false).is_ok());
    assert!(UserSpaceMemory::detect_suspicious_access_patterns(0x0040_0000, 8, true).is_ok());
}

#[test]
fn copies_from_user_memory_into_the_buffer() {
    let memory = [1u8, 2, 3, 4, 5];
    let mut buffer = [0u8; 3];
    assert_eq!(UserSpaceMemory::copy_from_user(USER_SPACE_START, &mut buffer, &memory, SyscallError::InvalidAddress, true, Ok(())), Ok(()));
    assert_eq!(buffer, [1, 2, 3]);
    let mut untouched = [9u8; 3];
    assert_eq!(UserSpaceMemory::copy_from_user(0, &mut untouched, &memory, SyscallError::InvalidAddress, true, Ok(())), Err(SyscallError::InvalidAddress));
    assert_eq!(untouched, [9, 9, 9]);
    assert_eq!(UserSpaceMemory::copy_from_user(USER_SPACE_START, &mut untouched, &memory, SyscallError::InvalidAddress, false, Ok(())), Err(SyscallError::PermissionDenied));
    assert_eq!(UserSpaceMemory::copy_from_user(USER_SPACE_START, &mut untouched, &memory, SyscallError::InvalidAddress, true, Err(SyscallError::PermissionDenied)), Err(SyscallError::PermissionDenied));
    assert_eq!(untouched, [9, 9, 9]);
    let mut long = [7u8; 4];
    assert_eq!(UserSpaceMemory::copy_from_user(USER_SPACE_START, &mut long, &[1, 2], SyscallError::InvalidAddress, true, Ok(())), Err(SyscallError::InvalidAddress));
    assert_eq!(long, [1, 2, 7, 7]);
    let mut empty: [u8; 0] = [];
    assert_eq!(UserSpaceMemory::copy_from_user(0, &mut empty, &memory, SyscallError::InvalidAddress, true, Err(SyscallError::PermissionDenied)), Ok(()));
}

#[test]
fn copies_the_buffer_into_user_memory() {
    let mut memory = [0u8; 5];
    assert_eq!(UserSpaceMemory::copy_to_user(USER_SPACE_START, &[7, 8], &mut memory, SyscallError::InvalidAddress, true, Ok(())), Ok(()));
    assert_eq!(memory, [7, 8, 0, 0, 0]);
    assert_eq!(UserSpaceMemory::copy_to_user(USER_SPACE_START, &[1, 1], &mut memory, SyscallError::InvalidAddress, true, Err(SyscallError::PermissionDenied)), Err(SyscallError::PermissionDenied));
    assert_eq!(memory, [7, 8, 0, 0, 0]);
    let mut short = [0u8; 2];
    assert_eq!(UserSpaceMemory::copy_to_user(USER_SPACE_START, &[4, 5, 6], &mut short, SyscallError::InvalidAddress, true, Ok(())), Err(SyscallError::InvalidAddress));
    assert_eq!(short, [4, 5]);
}

#[test]
fn copies_a_string_and_its_terminator_into_user_memory() {
    let mut memory = [0xAAu8; 6];
    assert_eq!(UserSpaceMemory::copy_string_to_user(USER_SPACE_START, "abc", &mut memory, SyscallError::InvalidAddress, true, Ok(()), Ok(()), Ok(())), Ok(()));
    assert_eq!(memory, [b'a', b'b', b'c', 0, 0xAA, 0xAA]);
    let mut exact = [0xAAu8; 3];
    assert_eq!(UserSpaceMemory::copy_string_to_user(USER_SPACE_START, "abc", &mut exact, SyscallError::InvalidAddress, true, Ok(()), Ok(()), Ok(())), Err(SyscallError::InvalidAddress));
    assert_eq!(exact, [b'a', b'b', b'c']);
    let mut kept = [0xAAu8; 6];
    assert_eq!(UserSpaceMemory::copy_string_to_user(0, "abc", &mut kept, SyscallError::InvalidAddress, true, Ok(()), Ok(()), Ok(())), Err(SyscallError::InvalidAddress));
    assert_eq!(kept, [0xAA; 6]);
    assert_eq!(UserSpaceMemory::copy_string_to_user(USER_SPACE_START, "abc", &mut kept, SyscallError::InvalidAddress, true, Ok(()), Ok(()), Err(SyscallError::PermissionDenied)), Err(SyscallError::PermissionDenied));
    assert_eq!(kept, [b'a', b'b', b'c', 0xAA, 0xAA, 0xAA]);
}

#[test]
fn copy_steps_go_by_blocks_then_bytes() {
    let mut ctx = PageFaultContext::new(MemoryOperation::CopyFromUser, USER_SPACE_START, 130, false);
    assert_eq!(UserSpaceMemory::copy_step(&mut ctx, 0, 130, CopyEvent::Started), CopyAction::CopyBlock { offset: 0 });
    assert_eq!(UserSpaceMemory::copy_step(&mut ctx, 0, 130, CopyEvent::Block { valid: Ok(()), copied: true }), CopyAction::CopyBlock { offset: 64 });
    assert_eq!(ctx.recovery_context.bytes_processed, 64);
    assert_eq!(UserSpaceMemory::copy_step(&mut ctx, 64, 130, CopyEvent::Block { valid: Ok(()), copied: false }), CopyAction::CopyByte { offset: 64 });
    assert_eq!(UserSpaceMemory::copy_step(&mut ctx, 64, 130, CopyEvent::Byte(Ok(()))), CopyAction::CopyByte { offset: 65 });
    assert_eq!(ctx.recovery_context.bytes_processed, 65);
    assert_eq!(UserSpaceMemory::copy_step(&mut ctx, 127, 130, CopyEvent::Byte(Ok(()))), CopyAction::CopyByte { offset: 128 });
    assert_eq!(UserSpaceMemory::copy_step(&mut ctx, 129, 130, CopyEvent::Byte(Ok(()))), CopyAction::Done);
    assert_eq!(ctx.recovery_context.bytes_processed, 130);
    assert_eq!(UserSpaceMemory::copy_step(&mut ctx, 128, 130, CopyEvent::Byte(Err(SyscallError::InvalidAddress))), CopyAction::Fail(SyscallError::InvalidAddress));
    assert_eq!(UserSpaceMemory::copy_step(&mut ctx, 0, 130, CopyEvent::Block { valid: Err(SyscallError::PermissionDenied), copied: true }), CopyAction::Fail(SyscallError::PermissionDenied));
    assert_eq!(ctx.recovery_context.bytes_processed, 130);
    assert_eq!(UserSpaceMemory::copy_step(&mut ctx, 0, 0, CopyEvent::Started), CopyAction::Done);
    assert_eq!(UserSpaceMemory::copy_step(&mut ctx, 0, 10, CopyEvent::Started), CopyAction::CopyByte { offset: 0 });
}
