//! Fixed constants of the supervisor: protection and mapping bits of the
//! Linux x86-64 ABI, signal and ptrace-event numbers, syscall numbers used by
//! the injector, and the well-known tracee virtual addresses at which the
//! scratch page and the shared-state page are placed.

use vstd::prelude::*;

verus! {

/// `PROT_READ` of the Linux mmap ABI.
pub const PROT_READ: i32 = 1;
/// `PROT_WRITE` of the Linux mmap ABI.
pub const PROT_WRITE: i32 = 2;
/// `PROT_EXEC` of the Linux mmap ABI.
pub const PROT_EXEC: i32 = 4;
/// `MAP_SHARED` of the Linux mmap ABI.
pub const MAP_SHARED: i32 = 1;
/// `MAP_PRIVATE` of the Linux mmap ABI.
pub const MAP_PRIVATE: i32 = 2;
/// `MAP_FIXED` of the Linux mmap ABI.
pub const MAP_FIXED: i32 = 0x10;
/// `MAP_ANONYMOUS` of the Linux mmap ABI.
pub const MAP_ANONYMOUS: i32 = 0x20;

/// Signal number of `SIGILL`.
pub const SIGILL: i32 = 4;
/// Signal number of `SIGTRAP`.
pub const SIGTRAP: i32 = 5;
/// Signal number of `SIGSEGV`.
pub const SIGSEGV: i32 = 11;
/// Signal number of `SIGCHLD`.
pub const SIGCHLD: i32 = 17;
/// Signal number of `SIGSTOP`.
pub const SIGSTOP: i32 = 19;

/// ptrace event code reported on `fork`.
pub const EVENT_FORK: u64 = 1;
/// ptrace event code reported on `vfork`.
pub const EVENT_VFORK: u64 = 2;
/// ptrace event code reported on `clone`.
pub const EVENT_CLONE: u64 = 3;
/// ptrace event code reported on `execve`.
pub const EVENT_EXEC: u64 = 4;
/// ptrace event code reported when a `vfork` parent resumes.
pub const EVENT_VFORK_DONE: u64 = 5;
/// ptrace event code reported on thread exit.
pub const EVENT_EXIT: u64 = 6;
/// ptrace event code reported for a seccomp trace event.
pub const EVENT_SECCOMP: u64 = 7;

/// Kernel-internal restart code `ERESTARTSYS`.
pub const ERESTARTSYS: i64 = 512;
/// Kernel-internal restart code `ERESTARTNOINTR`.
pub const ERESTARTNOINTR: i64 = 513;
/// Kernel-internal restart code `ERESTARTNOHAND`.
pub const ERESTARTNOHAND: i64 = 514;
/// Kernel-internal restart code `ERESTART_RESTARTBLOCK`.
pub const ERESTARTBLOCK: i64 = 516;

/// x86-64 syscall number of `mmap`.
pub const SYS_MMAP: i64 = 9;
/// x86-64 syscall number of `mprotect`.
pub const SYS_MPROTECT: i64 = 10;
/// x86-64 syscall number of `munmap`.
pub const SYS_MUNMAP: i64 = 11;
/// x86-64 syscall number of `mremap`.
pub const SYS_MREMAP: i64 = 25;
/// x86-64 syscall number of `madvise`.
pub const SYS_MADVISE: i64 = 28;

/// Tracee virtual address of the supervisor-allocated scratch page.
pub const SYSTRACE_PRIVATE_PAGE_OFFSET: u64 = 0x7000_0000;
/// Size of the scratch page allocation.
pub const SYSTRACE_PRIVATE_PAGE_SIZE: u64 = 0x1000;
/// Entry stub, within the scratch page, whose syscall is not seccomp-filtered.
pub const UNTRACED_SYSCALL_ENTRY: u64 = 0x7000_0008;
/// Entry stub, within the scratch page, whose syscall is seccomp-filtered.
pub const TRACED_SYSCALL_ENTRY: u64 = 0x7000_0010;
/// Tracee virtual address at which the shared-state page is mapped.
pub const SYSTRACE_GLOBAL_STATE_ADDR: u64 = 0x7000_1000;
/// Size of the shared-state page mapping.
pub const SYSTRACE_GLOBAL_STATE_SIZE: u64 = 0x1000;
/// Pre-opened file descriptor backing the shared-state page in a fresh tracee.
pub const SYSTRACE_GLOBAL_STATE_FD: i32 = 1023;
/// Tracee slot to which the trampoline publishes its load address.
pub const SYSTRACE_LOCAL_SYSCALL_TRAMPOLINE: u64 = 0x7000_1020;
/// Tracee slot to which the supervisor publishes the shared-state address.
pub const SYSTRACE_LOCAL_SYSTRACE_GLOBAL_STATE: u64 = 0x7000_1028;
/// Tracee slot holding the tool log level read by the trampoline's logger.
pub const SYSTRACE_LOCAL_SYSTOOL_LOG_LEVEL: u64 = 0x7000_1038;

/// Displacement reach of a 32-bit `rel32` branch: 2 GiB.
pub const TWO_GB: u64 = 0x8000_0000;

} // verus!
