//! The system calls of package management: their numbers, which operation
//! each runs, and the checks on the user buffers they are given.

use vstd::prelude::*;
use crate::package::PackageOperation;
use crate::package::manager::{PackageManager, operation_done};

verus! {

/// Install a package: name pointer and length.
pub const SYS_PKG_INSTALL: usize = 200;
/// Remove a package: name pointer and length.
pub const SYS_PKG_REMOVE: usize = 201;
/// Search: query pointer and length, result pointer and length.
pub const SYS_PKG_SEARCH: usize = 202;
/// Package information: name pointer and length, result pointer and length.
pub const SYS_PKG_INFO: usize = 203;
/// List installed packages: result pointer and length.
pub const SYS_PKG_LIST: usize = 204;
/// Update the package database.
pub const SYS_PKG_UPDATE: usize = 205;
/// Upgrade a package: name pointer and length.
pub const SYS_PKG_UPGRADE: usize = 206;

/// The operation that a system call number runs.
pub open spec fn syscall_op(n: usize) -> Option<PackageOperation> {
    if n == SYS_PKG_INSTALL {
        Some(PackageOperation::Install)
    } else if n == SYS_PKG_REMOVE {
        Some(PackageOperation::Remove)
    } else if n == SYS_PKG_SEARCH {
        Some(PackageOperation::Search)
    } else if n == SYS_PKG_INFO {
        Some(PackageOperation::Info)
    } else if n == SYS_PKG_LIST {
        Some(PackageOperation::List)
    } else if n == SYS_PKG_UPDATE {
        Some(PackageOperation::Update)
    } else if n == SYS_PKG_UPGRADE {
        Some(PackageOperation::Upgrade)
    } else {
        None
    }
}

/// The operation that a system call number runs; `None` for a number
/// that is not a package call.
pub fn syscall_operation(n: usize) -> (r: Option<PackageOperation>)
    ensures
        r == syscall_op(n),
{
    if n == SYS_PKG_INSTALL {
        Some(PackageOperation::Install)
    } else if n == SYS_PKG_REMOVE {
        Some(PackageOperation::Remove)
    } else if n == SYS_PKG_SEARCH {
        Some(PackageOperation::Search)
    } else if n == SYS_PKG_INFO {
        Some(PackageOperation::Info)
    } else if n == SYS_PKG_LIST {
        Some(PackageOperation::List)
    } else if n == SYS_PKG_UPDATE {
        Some(PackageOperation::Update)
    } else if n == SYS_PKG_UPGRADE {
        Some(PackageOperation::Upgrade)
    } else {
        None
    }
}

/// Whether the operation takes a name (or query) from the caller.
pub open spec fn named(op: PackageOperation) -> bool {
    !(op == PackageOperation::List || op == PackageOperation::Update)
}

/// Whether the operation takes a name (or query) from the caller
/// (`named`).
pub fn takes_name(op: PackageOperation) -> (r: bool)
    ensures
        r == named(op),
{
    match op {
        PackageOperation::List | PackageOperation::Update => false,
        _ => true,
    }
}

/// Whether the operation writes its report to a caller buffer.
pub open spec fn reports(op: PackageOperation) -> bool {
    op == PackageOperation::Search || op == PackageOperation::Info || op == PackageOperation::List
}

/// Whether the operation writes its report to a caller buffer (`reports`).
pub fn writes_report(op: PackageOperation) -> (r: bool)
    ensures
        r == reports(op),
{
    match op {
        PackageOperation::Search | PackageOperation::Info | PackageOperation::List => true,
        _ => false,
    }
}

/// The message of a system call whose operation failed.
pub open spec fn failure_text(op: PackageOperation) -> Seq<char> {
    match op {
        PackageOperation::Install => "Package installation failed"@,
        PackageOperation::Remove => "Package removal failed"@,
        PackageOperation::Search => "Package search failed"@,
        PackageOperation::Info => "Package info failed"@,
        PackageOperation::List => "Package list failed"@,
        PackageOperation::Update => "Package update failed"@,
        PackageOperation::Upgrade => "Package upgrade failed"@,
    }
}

/// The message of a system call whose operation failed (`failure_text`).
pub fn failure_message(op: PackageOperation) -> (r: &'static str)
    ensures
        r@ == failure_text(op),
{
    match op {
        PackageOperation::Install => "Package installation failed",
        PackageOperation::Remove => "Package removal failed",
        PackageOperation::Search => "Package search failed",
        PackageOperation::Info => "Package info failed",
        PackageOperation::List => "Package list failed",
        PackageOperation::Update => "Package update failed",
        PackageOperation::Upgrade => "Package upgrade failed",
    }
}

/// Checks a user string: a null pointer, an empty string or one over 4096
/// bytes is refused.
pub fn check_string_params(ptr: usize, len: usize) -> (r: Result<(), &'static str>)
    ensures
        r is Ok <==> (ptr != 0 && len != 0 && len <= 4096),
        r matches Err(m) ==> m@ == "Invalid string parameters"@,
{
    if ptr == 0 || len == 0 || len > 4096 {
        return Err("Invalid string parameters");
    }
    Ok(())
}

/// Checks a user buffer and gives how many bytes of a `data_len`-byte
/// report go into it: a null pointer or an empty buffer is refused.
pub fn report_write_length(ptr: usize, max_len: usize, data_len: usize) -> (r: Result<usize, &'static str>)
    ensures
        (ptr == 0 || max_len == 0) ==> (r matches Err(m) && m@ == "Invalid buffer parameters"@),
        (ptr != 0 && max_len != 0) ==> r == Ok::<usize, &'static str>(
            if data_len < max_len {
                data_len
            } else {
                max_len
            },
        ),
{
    if ptr == 0 || max_len == 0 {
        return Err("Invalid buffer parameters");
    }
    if data_len < max_len {
        Ok(data_len)
    } else {
        Ok(max_len)
    }
}

/// The name a call runs its operation on: the caller's, or the empty name
/// for the calls that take none.
pub open spec fn call_arg(op: PackageOperation, name: Seq<char>) -> Seq<char> {
    if named(op) {
        name
    } else {
        ""@
    }
}

/// What a package system call answers for the answer `res` of its
/// operation: the byte length of the report and the report itself for the
/// calls that write one (0 and nothing for the others), or the call's
/// failure message.
pub open spec fn call_answer(
    op: PackageOperation,
    res: crate::package::PackageResult<String>,
    r: Result<(isize, Option<String>), &'static str>,
) -> bool {
    match res {
        Ok(s) => r matches Ok((k, rep)) && (if reports(op) {
            k == (vstd::utf8::encode_utf8(s@).len() as usize) as isize && (rep matches Some(t) && t@ == s@)
        } else {
            k == 0 && rep is None
        }),
        Err(_) => r matches Err(m) && m@ == failure_text(op),
    }
}

/// Runs package system call `syscall_number` on the manager in `pm`,
/// given the name (or query) the caller passed; calls without a name run
/// on the empty name. An unknown number and a missing manager are refused;
/// otherwise the operation runs (`operation_done`) and its answer is
/// turned into the call's (`call_answer`). Writing the report to the
/// caller's buffer is left to the caller.
pub fn handle_package_call(pm: &mut Option<PackageManager>, syscall_number: usize, name: String) -> (r: Result<
    (isize, Option<String>),
    &'static str,
>)
    requires
        *old(pm) matches Some(m) ==> m.wf(),
    ensures
        syscall_op(syscall_number) is None ==> (r matches Err(m) && m@ == "Unknown package management syscall"@)
            && *final(pm) == *old(pm),
        syscall_op(syscall_number) is Some && *old(pm) is None ==> (r matches Err(m) && m@
            == "Package manager not initialized"@) && *final(pm) is None,
        syscall_op(syscall_number) is Some && *old(pm) is Some ==> *final(pm) is Some && final(pm)->0.wf() && exists|
            res: crate::package::PackageResult<String>,
        |
            #[trigger] operation_done(
                old(pm)->0,
                final(pm)->0,
                syscall_op(syscall_number)->0,
                call_arg(syscall_op(syscall_number)->0, name@),
                res,
            ) && call_answer(syscall_op(syscall_number)->0, res, r),
{
    let op = match syscall_operation(syscall_number) {
        Some(op) => op,
        None => {
            return Err("Unknown package management syscall");
        },
    };
    let mut manager = match pm.take() {
        Some(m) => m,
        None => {
            return Err("Package manager not initialized");
        },
    };
    let arg: &str = if takes_name(op) { name.as_str() } else { "" };
    let ghost before = manager;
    let res = manager.execute_operation(op, arg);
    let ghost outcome = res;
    assert(operation_done(before, manager, op, call_arg(op, name@), outcome));
    let ghost after = manager;
    *pm = Some(manager);
    let answer = match res {
        Ok(report) => {
            if writes_report(op) {
                let k: usize = report.as_str().len();
                Ok((k as isize, Some(report)))
            } else {
                Ok((0isize, None))
            }
        },
        Err(_) => Err(failure_message(op)),
    };
    assert(call_answer(op, outcome, answer));
    assert(*pm == Some(after));
    assert(old(pm)->0 == before);
    assert(syscall_op(syscall_number)->0 == op);
    assert(operation_done(old(pm)->0, pm->0, syscall_op(syscall_number)->0, call_arg(syscall_op(syscall_number)->0, name@), outcome)
        && call_answer(syscall_op(syscall_number)->0, outcome, answer));
    answer
}

} // verus!
