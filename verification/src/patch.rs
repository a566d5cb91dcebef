//! The patch protocol for one syscall site.
//!
//! On a seccomp stop at an intact site the supervisor tries to rewrite the
//! site into a call to an extended-jump thunk.  The attempt can be refused
//! — inside a `vfork`, without a loaded trampoline, at a site already
//! patched or given up on, or with the site's write lock contested — and a
//! refusal leaves the kernel path in charge.  Otherwise the write lock is
//! taken, a stub page within reach is found or a slot for one is chosen,
//! and the patch bytes are produced; the unverified shell performs the
//! actual remote writes and then releases the write lock.

use vstd::prelude::*;
use crate::consts::{PROT_EXEC, PROT_READ};
use crate::proc::ProcMapsEntry;
use crate::state::SystraceState;
use crate::stubs::{
    find_stub_page, search_stub_page, slot_ok, stub_page_wf, stub_reachable, patch_site_bytes,
    SyscallStubPage, EXTENDED_JUMP_PAGES, EXTENDED_JUMP_SIZE,
};
use crate::task::{space_wf, table_wf, task_wf, AddressSpace, SpaceTable, TracedTask};

verus! {

/// Why a patch attempt was refused.
#[derive(Clone, Copy, Debug, PartialEq, Eq, Structural)]
pub enum PatchError {
    /// The task sits between `vfork` and `exec`: the address space is
    /// borrowed and about to be replaced.
    InVfork,
    /// The trampoline library has not published its load address.
    NoTrampoline,
    /// The site is already in the patched set.
    AlreadyPatched,
    /// The site is in the unpatchable set.
    Unpatchable,
    /// The write lock could not be taken at once: a peer holds the site.
    /// The site will be retried on its next hit.
    WriteLockBusy,
    /// No stub page reaches the site and no free ±2 GiB slot exists: the
    /// site joins the unpatchable set rather than getting an out-of-range
    /// branch.
    NoStubSlot,
}

/// The remote write that completes a patch.
pub struct PatchCommit {
    /// Address of the `syscall` opcode: the stopped `rip` minus two.
    pub site: u64,
    /// The bytes to write at the site.
    pub bytes: Vec<u8>,
    /// The thunk address the written call lands on.
    pub target: u64,
}

/// What a successful attempt asks the shell to do.
pub enum PatchPlan {
    /// Map a stub page first: inject an `mmap` at `at`, write the thunks,
    /// `mprotect` to read-and-execute, register the page, then retry.
    NeedStubPage {
        /// Chosen page-aligned slot within reach of the site.
        at: u64,
        /// Allocation size in bytes.
        size: u64,
    },
    /// Write `bytes` at `site`, then release the write lock with
    /// [`finish_patch`].
    Ready(PatchCommit),
}

/// The refusals decided by the task and address-space state alone, in the
/// order they are tested.
pub open spec fn patch_refusal(task: &TracedTask, sp: &AddressSpace, rip: u64) -> Option<
    PatchError,
> {
    if task.in_vfork {
        Option::Some(PatchError::InVfork)
    } else if task.ldpreload_address is None {
        Option::Some(PatchError::NoTrampoline)
    } else if sp.patched_syscalls@.contains(rip) {
        Option::Some(PatchError::AlreadyPatched)
    } else if sp.unpatchable_syscalls@.contains(rip) {
        Option::Some(PatchError::Unpatchable)
    } else if (exists|t: i32| t != task.tid && sp.syscall_patch_lockset.reads(t, rip))
        || sp.syscall_patch_lockset.write_held(rip) {
        Option::Some(PatchError::WriteLockBusy)
    } else {
        Option::None
    }
}

/// `target` lies, with a whole thunk, inside a registered stub page that
/// is mapped readable and executable.
pub open spec fn target_in_stub_page(pages: Seq<SyscallStubPage>, target: u64) -> bool {
    exists|k: int|
        0 <= k < pages.len() && (#[trigger] pages[k]).address <= target && target
            + EXTENDED_JUMP_SIZE <= pages[k].address + pages[k].size && pages[k].prot == PROT_READ
            | PROT_EXEC
}

/// Try to patch the syscall site at `rip` for `task`.  `hook_index` and
/// `hook_len` are the matched catalog entry's position and pattern length.
///
/// On `Ready` the site is in the patched set, the write lock is held by
/// the task for the remote write, and the returned bytes are a call whose
/// decoded target is a thunk inside a registered executable stub page.  On
/// `NeedStubPage` nothing is recorded yet and no lock is held; the shell
/// maps the page and retries.  On a refusal the sets are unchanged —
/// except `NoStubSlot`, which records the site as unpatchable — and no
/// lock is held by the task.
#[verifier::rlimit(100)]
#[verifier::spinoff_prover]
pub fn patch_syscall_with(
    task: &TracedTask,
    tbl: &mut SpaceTable,
    hook_index: u64,
    hook_len: usize,
    rip: u64,
) -> (r: Result<PatchPlan, PatchError>)
    requires
        table_wf(old(tbl)),
        task_wf(task, old(tbl)),
        hook_index < 256,
        hook_index * EXTENDED_JUMP_SIZE + EXTENDED_JUMP_SIZE <= EXTENDED_JUMP_PAGES * 0x1000,
        3 <= hook_len <= 16,
        2 <= rip,
        rip + 16 <= u64::MAX,
        // the caller entered with at most the read side held
        !old(tbl).spaces@[task.space as int].syscall_patch_lockset.writes(task.tid, rip),
    ensures
        table_wf(final(tbl)),
        final(tbl).spaces@.len() == old(tbl).spaces@.len(),
        forall|k: int|
            0 <= k < old(tbl).spaces@.len() && k != task.space
                ==> #[trigger] final(tbl).spaces@[k] == old(tbl).spaces@[k],
        ({
            let sp0 = &old(tbl).spaces@[task.space as int];
            let sp1 = &final(tbl).spaces@[task.space as int];
            let refusal = patch_refusal(task, sp0, rip);
            match r {
                Result::Err(e) => {
                    &&& if e == PatchError::NoStubSlot {
                        &&& refusal is None
                        &&& !stub_reachable(sp0.stub_pages@, rip)
                        &&& crate::stubs::no_candidate_slot(
                            sp0.memory_map@.map_values(|e2: ProcMapsEntry| e2@),
                            (EXTENDED_JUMP_PAGES * 0x1000) as u64,
                            rip,
                        )
                    } else {
                        refusal == Option::Some(e)
                    }
                    &&& sp1.memory_map@ == sp0.memory_map@
                    &&& sp1.stub_pages@ == sp0.stub_pages@
                    &&& sp1.patched_syscalls@ == sp0.patched_syscalls@
                    &&& if e == PatchError::NoStubSlot {
                        sp1.unpatchable_syscalls@ == sp0.unpatchable_syscalls@.push(rip)
                    } else {
                        sp1.unpatchable_syscalls@ == sp0.unpatchable_syscalls@
                    }
                    &&& !sp1.syscall_patch_lockset.writes(task.tid, rip)
                },
                Result::Ok(PatchPlan::NeedStubPage { at, size }) => {
                    &&& refusal is None
                    &&& !stub_reachable(sp0.stub_pages@, rip)
                    &&& size == EXTENDED_JUMP_PAGES * 0x1000
                    &&& slot_ok(sp0.memory_map@.map_values(|e: ProcMapsEntry| e@), at, size, rip)
                    &&& sp1.memory_map@ == sp0.memory_map@
                    &&& sp1.stub_pages@ == sp0.stub_pages@
                    &&& sp1.patched_syscalls@ == sp0.patched_syscalls@
                    &&& sp1.unpatchable_syscalls@ == sp0.unpatchable_syscalls@
                    &&& !sp1.syscall_patch_lockset.writes(task.tid, rip)
                },
                Result::Ok(PatchPlan::Ready(c)) => {
                    &&& refusal is None
                    &&& c.site == rip - 2
                    &&& c.bytes@.len() == hook_len + 2
                    &&& c.bytes@[0] == 0xe8
                    &&& crate::stubs::decode_call_rel32(c.site, c.bytes@) == c.target
                    &&& target_in_stub_page(sp1.stub_pages@, c.target)
                    &&& sp1.stub_pages@ == sp0.stub_pages@
                    &&& sp1.memory_map@ == sp0.memory_map@
                    &&& sp1.patched_syscalls@ == sp0.patched_syscalls@.push(rip)
                    &&& sp1.unpatchable_syscalls@ == sp0.unpatchable_syscalls@
                    &&& sp1.syscall_patch_lockset.writes(task.tid, rip)
                },
            }
        }),
{
    let ghost pre_spaces = tbl.spaces@;
    let tid = task.tid;
    let space_idx = task.space;
    // refusals decided by the task record alone
    if task.in_vfork {
        return Result::Err(PatchError::InVfork);
    }
    if task.ldpreload_address.is_none() {
        return Result::Err(PatchError::NoTrampoline);
    }
    if task.is_patched_syscall(tbl, rip) {
        return Result::Err(PatchError::AlreadyPatched);
    }
    let unpatchable = contains_u64(&tbl.spaces[space_idx].unpatchable_syscalls, rip);
    if unpatchable {
        return Result::Err(PatchError::Unpatchable);
    }
    // the read lock taken on entry is released, and the write lock must be
    // taken at once, or the attempt is abandoned for this call
    let sp = &mut tbl.spaces[space_idx];
    let ghost sp0 = *sp;
    sp.syscall_patch_lockset.try_read_unlock(tid, rip);
    let ghost mid = sp.syscall_patch_lockset;
    let got_write = sp.syscall_patch_lockset.try_write_lock(tid, rip);
    proof {
        mid.lemma_read_held_iff(rip);
        assert((exists|t: i32| mid.reads(t, rip)) == (exists|t: i32|
            t != tid && sp0.syscall_patch_lockset.reads(t, rip))) by {
            if exists|t: i32| mid.reads(t, rip) {
                let t = choose|t: i32| mid.reads(t, rip);
                assert(t != tid);
                assert(sp0.syscall_patch_lockset.reads(t, rip));
            }
            if exists|t: i32| t != tid && sp0.syscall_patch_lockset.reads(t, rip) {
                let t = choose|t: i32| t != tid && sp0.syscall_patch_lockset.reads(t, rip);
                assert(mid.reads(t, rip));
            }
        }
        assert(mid.write_held(rip) == sp0.syscall_patch_lockset.write_held(rip));
        assert(got_write == (patch_refusal(task, &sp0, rip) is None));
    }
    if !got_write {
        return Result::Err(PatchError::WriteLockBusy);
    }
    // place the thunk: an existing page within reach, or a fresh slot
    let found = find_stub_page(&sp.stub_pages, rip);
    match found {
        Option::Some(page_addr) => {
            let offset: u64 = hook_index * 16;
            let target: u64 = page_addr + offset;
            let site: u64 = rip - 2;
            proof {
                let pages = sp.stub_pages@;
                let k = choose|k: int|
                    0 <= k < pages.len() && (#[trigger] pages[k]).address == page_addr
                        && crate::stubs::stub_page_reaches(pages[k].address, pages[k].size, rip);
                assert(stub_page_wf(pages[k]));
                assert(target_in_stub_page(pages, target));
                // the chosen page is within displacement reach of the call
                assert(site + 5 <= target + 0x8000_0000);
                assert(target <= site + 5 + 0x7fff_ffff);
            }
            let bytes = patch_site_bytes(hook_len, site, target);
            sp.patched_syscalls.push(rip);
            proof {
                let sp1 = *sp;
                assert(sp1.patched_syscalls@ == sp0.patched_syscalls@.push(rip));
                assert(space_wf(&sp1)) by {
                    assert forall|m: int|
                        0 <= m < sp1.patched_syscalls@.len() implies stub_reachable(
                        sp1.stub_pages@,
                        #[trigger] sp1.patched_syscalls@[m],
                    ) by {
                        if m < sp0.patched_syscalls@.len() {
                            assert(sp1.patched_syscalls@[m] == sp0.patched_syscalls@[m]);
                        } else {
                            assert(sp1.patched_syscalls@[m] == rip);
                        }
                    }
                }
            }
            Result::Ok(PatchPlan::Ready(PatchCommit { site, bytes, target }))
        },
        Option::None => {
            let slot = search_stub_page(&sp.memory_map, rip, 0x1000);
            match slot {
                Option::Some(at) => {
                    sp.syscall_patch_lockset.try_write_unlock(tid, rip);
                    Result::Ok(PatchPlan::NeedStubPage { at, size: 0x1000 })
                },
                Option::None => {
                    sp.unpatchable_syscalls.push(rip);
                    sp.syscall_patch_lockset.try_write_unlock(tid, rip);
                    Result::Err(PatchError::NoStubSlot)
                },
            }
        },
    }
}

/// Is `x` one of the values of `v`?
fn contains_u64(v: &Vec<u64>, x: u64) -> (r: bool)
    ensures
        r == v@.contains(x),
{
    let mut k: usize = 0;
    while k < v.len()
        invariant
            k <= v@.len(),
            forall|m: int| 0 <= m < k ==> v@[m] != x,
        decreases v@.len() - k,
    {
        if v[k] == x {
            proof {
                assert(v@.contains(x));
            }
            return true;
        }
        k = k + 1;
    }
    proof {
        if v@.contains(x) {
            let m = choose|m: int| 0 <= m < v@.len() && v@[m] == x;
            assert(false);
        }
    }
    false
}

/// Record a freshly mapped stub page: the shell has injected the `mmap` at
/// the slot the plan named, written `allocated` bytes of thunks, and
/// `mprotect`ed the page to read-and-execute.
pub fn register_stub_page(tbl: &mut SpaceTable, space: usize, at: u64, allocated: u64)
    requires
        table_wf(old(tbl)),
        space < old(tbl).spaces@.len(),
        at + EXTENDED_JUMP_PAGES * 0x1000 <= u64::MAX,
        allocated <= EXTENDED_JUMP_PAGES * 0x1000,
    ensures
        table_wf(final(tbl)),
        final(tbl).spaces@.len() == old(tbl).spaces@.len(),
        forall|k: int|
            0 <= k < old(tbl).spaces@.len() && k != space
                ==> #[trigger] final(tbl).spaces@[k] == old(tbl).spaces@[k],
        ({
            let sp0 = &old(tbl).spaces@[space as int];
            let sp1 = &final(tbl).spaces@[space as int];
            &&& sp1.stub_pages@ == sp0.stub_pages@.push(
                SyscallStubPage {
                    address: at,
                    size: (EXTENDED_JUMP_PAGES * 0x1000) as u64,
                    allocated,
                    prot: PROT_READ | PROT_EXEC,
                },
            )
            &&& sp1.memory_map@ == sp0.memory_map@
            &&& sp1.patched_syscalls@ == sp0.patched_syscalls@
            &&& sp1.unpatchable_syscalls@ == sp0.unpatchable_syscalls@
            &&& sp1.syscall_patch_lockset == sp0.syscall_patch_lockset
        }),
{
    let sp = &mut tbl.spaces[space];
    let ghost sp0 = *sp;
    sp.stub_pages.push(
        SyscallStubPage {
            address: at,
            size: EXTENDED_JUMP_PAGES * 0x1000,
            allocated,
            prot: PROT_READ | PROT_EXEC,
        },
    );
    proof {
        let sp1 = *sp;
        assert(space_wf(&sp1)) by {
            assert forall|m: int|
                0 <= m < sp1.patched_syscalls@.len() implies stub_reachable(
                sp1.stub_pages@,
                #[trigger] sp1.patched_syscalls@[m],
            ) by {
                assert(stub_reachable(sp0.stub_pages@, sp0.patched_syscalls@[m]));
                let k = choose|k: int|
                    0 <= k < sp0.stub_pages@.len() && crate::stubs::stub_page_reaches(
                        (#[trigger] sp0.stub_pages@[k]).address,
                        sp0.stub_pages@[k].size,
                        sp0.patched_syscalls@[m],
                    ) && sp0.stub_pages@[k].prot == PROT_READ | PROT_EXEC;
                assert(sp1.stub_pages@[k] == sp0.stub_pages@[k]);
            }
        }
    }
}

/// Replace the memory-map snapshot of an address space, as after the shell
/// re-reads the kernel-exported map.
pub fn update_memory_map(tbl: &mut SpaceTable, space: usize, maps: Vec<ProcMapsEntry>)
    requires
        table_wf(old(tbl)),
        space < old(tbl).spaces@.len(),
    ensures
        table_wf(final(tbl)),
        final(tbl).spaces@.len() == old(tbl).spaces@.len(),
        forall|k: int|
            0 <= k < old(tbl).spaces@.len() && k != space
                ==> #[trigger] final(tbl).spaces@[k] == old(tbl).spaces@[k],
        ({
            let sp0 = &old(tbl).spaces@[space as int];
            let sp1 = &final(tbl).spaces@[space as int];
            &&& sp1.memory_map@ == maps@
            &&& sp1.stub_pages@ == sp0.stub_pages@
            &&& sp1.patched_syscalls@ == sp0.patched_syscalls@
            &&& sp1.unpatchable_syscalls@ == sp0.unpatchable_syscalls@
            &&& sp1.syscall_patch_lockset == sp0.syscall_patch_lockset
        }),
{
    let sp = &mut tbl.spaces[space];
    sp.memory_map = maps;
}

/// Release the write lock after the patch bytes have been written.
pub fn finish_patch(tbl: &mut SpaceTable, space: usize, tid: i32, rip: u64)
    requires
        table_wf(old(tbl)),
        space < old(tbl).spaces@.len(),
    ensures
        table_wf(final(tbl)),
        final(tbl).spaces@.len() == old(tbl).spaces@.len(),
        forall|k: int|
            0 <= k < old(tbl).spaces@.len() && k != space
                ==> #[trigger] final(tbl).spaces@[k] == old(tbl).spaces@[k],
        ({
            let sp0 = &old(tbl).spaces@[space as int];
            let sp1 = &final(tbl).spaces@[space as int];
            &&& !sp1.syscall_patch_lockset.writes(tid, rip)
            &&& sp1.memory_map@ == sp0.memory_map@
            &&& sp1.stub_pages@ == sp0.stub_pages@
            &&& sp1.patched_syscalls@ == sp0.patched_syscalls@
            &&& sp1.unpatchable_syscalls@ == sp0.unpatchable_syscalls@
        }),
{
    let sp = &mut tbl.spaces[space];
    sp.syscall_patch_lockset.try_write_unlock(tid, rip);
}

/// Count the outcome of one seccomp event: a patched site is counted as
/// patched; a site that ran through the kernel is counted as a ptraced
/// syscall.
pub fn seccomp_bookkeeping(st: &mut SystraceState, patched: bool)
    ensures
        patched ==> final(st).nr_syscalls_patched == crate::state::bumped(
            old(st).nr_syscalls_patched,
        ),
        !patched ==> final(st).nr_syscalls == crate::state::bumped(old(st).nr_syscalls)
            && final(st).nr_syscalls_ptraced == crate::state::bumped(old(st).nr_syscalls_ptraced),
        crate::state::counters_monotonic_from(*old(st), *final(st)),
{
    if patched {
        st.count_patched_syscall();
    } else {
        st.count_ptraced_syscall();
    }
}

} // verus!
