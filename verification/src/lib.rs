//! Supervisor core for a Linux/x86-64 syscall-interception and patching tool.
//!
//! The library holds the verified logic of the supervisor: the `/proc` memory
//! map codec, the catalog of recognized post-syscall instruction patterns, the
//! per-site reader/writer lockset, the per-thread task records with their
//! address-space-scoped sets, the stub-page placement rules, the patch byte
//! generator, and the decision functions of the tracing event loop.  The
//! unverified shell that talks to the kernel (ptrace, waitpid, file reads)
//! lives outside and calls into these functions with plain values.

pub mod consts;
pub mod diag;
pub mod hooks;
pub mod lockset;
pub mod machine;
pub mod patch;
pub mod proc;
pub mod remote;
pub mod state;
pub mod stubs;
pub mod task;

use vstd::prelude::*;

verus! {

/// Byte length of the x86-64 `syscall` instruction (`0f 05`).
pub const SYSCALL_INSN_SIZE: u64 = 2;

/// A word read at a syscall site starts with the two-byte `syscall` opcode.
pub open spec fn spec_is_syscall_word(word: u64) -> bool {
    word & 0xffff == 0x050f
}

/// Does a little-endian word fetched at an address begin with the `syscall`
/// instruction (`0f 05`)?  A site that fails this test has already been
/// rewritten by a concurrent patch of a sibling thread.
pub fn is_syscall_insn_word(word: u64) -> (r: bool)
    ensures
        r == spec_is_syscall_word(word),
{
    word & 0xffff == 0x050f
}

} // verus!
