//! Per-thread task records and address-space-scoped state.
//!
//! Each tracee thread has one [`TracedTask`].  Threads of one process share
//! one address space and therefore one [`AddressSpace`]: the memory-map
//! snapshot, the stub pages, the patched and unpatchable site sets and the
//! per-site lockset.  The spaces live in a [`SpaceTable`] and a task names
//! its space by index: on `clone` the child aliases the parent's space, on
//! `fork` and `vfork` it gets a deep copy, and on `exec` the space is reset
//! to empty.  [`lemma_fork_isolation`] and [`lemma_clone_aliasing`] state
//! the two sharing laws; [`task_exec_reset`] carries the reset law in its
//! contract.

use vstd::prelude::*;
use crate::consts::EVENT_SECCOMP;
use crate::lockset::RemoteRWLock;
use crate::proc::ProcMapsEntry;
use crate::stubs::{stub_page_wf, stub_reachable, SyscallStubPage};

verus! {

/// Execution state of a tracee thread, driven by one tracing event per
/// step.
#[derive(Clone, Copy, Debug, PartialEq, Eq, Structural)]
pub enum TaskState {
    /// Not yet resumed; the initial state on attach.
    Ready,
    /// Resumed and running until the next stop.
    Running,
    /// Signal-delivery stop with the given signal.
    Stopped(i32),
    /// Group-stop on a terminating signal.
    Signaled(i32),
    /// ptrace event stop with the given event code.
    Event(u64),
    /// Syscall-exit stop.
    Syscall,
    /// Gone, with its exit code; the terminal state.
    Exited(i32),
}

/// The state shared by all threads of one address space.
pub struct AddressSpace {
    /// Snapshot of the tracee's memory map.
    pub memory_map: Vec<ProcMapsEntry>,
    /// Stub pages allocated in this address space.
    pub stub_pages: Vec<SyscallStubPage>,
    /// Sites whose syscall instructions have been rewritten.
    pub patched_syscalls: Vec<u64>,
    /// Sites at which patching was refused; never retried.
    pub unpatchable_syscalls: Vec<u64>,
    /// The per-site reader/writer lockset.
    pub syscall_patch_lockset: RemoteRWLock,
}

/// An address space in good standing: its lockset is well formed, its stub
/// pages are well formed, and every patched site is served by a registered
/// readable-and-executable stub page within ±2 GiB.
pub open spec fn space_wf(a: &AddressSpace) -> bool {
    &&& a.syscall_patch_lockset.wf()
    &&& forall|k: int| 0 <= k < a.stub_pages@.len() ==> stub_page_wf(#[trigger] a.stub_pages@[k])
    &&& forall|k: int|
        0 <= k < a.patched_syscalls@.len() ==> stub_reachable(
            a.stub_pages@,
            #[trigger] a.patched_syscalls@[k],
        )
}

/// An empty address space: nothing mapped, nothing patched, nothing held.
pub open spec fn space_empty(a: &AddressSpace) -> bool {
    &&& a.memory_map@.len() == 0
    &&& a.stub_pages@.len() == 0
    &&& a.patched_syscalls@.len() == 0
    &&& a.unpatchable_syscalls@.len() == 0
    &&& forall|t: i32, s: u64| !a.syscall_patch_lockset.reads(t, s)
    &&& forall|t: i32, s: u64| !a.syscall_patch_lockset.writes(t, s)
}

/// Two spaces hold the same sets (the lockset aside, which a fork starts
/// afresh).
pub open spec fn space_sets_equal(a: &AddressSpace, b: &AddressSpace) -> bool {
    &&& a.memory_map@.map_values(|e: ProcMapsEntry| e@) == b.memory_map@.map_values(
        |e: ProcMapsEntry| e@,
    )
    &&& a.stub_pages@ == b.stub_pages@
    &&& a.patched_syscalls@ == b.patched_syscalls@
    &&& a.unpatchable_syscalls@ == b.unpatchable_syscalls@
}

fn empty_space() -> (r: AddressSpace)
    ensures
        space_wf(&r),
        space_empty(&r),
{
    AddressSpace {
        memory_map: Vec::new(),
        stub_pages: Vec::new(),
        patched_syscalls: Vec::new(),
        unpatchable_syscalls: Vec::new(),
        syscall_patch_lockset: RemoteRWLock::new(),
    }
}

fn copy_u64s(src: &Vec<u64>) -> (r: Vec<u64>)
    ensures
        r@ == src@,
{
    let mut out: Vec<u64> = Vec::new();
    let mut k: usize = 0;
    while k < src.len()
        invariant
            k <= src@.len(),
            out@ == src@.take(k as int),
        decreases src@.len() - k,
    {
        out.push(src[k]);
        proof {
            assert(src@.take(k as int + 1) =~= src@.take(k as int).push(src@[k as int]));
        }
        k = k + 1;
    }
    proof {
        assert(src@.take(src@.len() as int) =~= src@);
    }
    out
}

fn copy_stub_pages(src: &Vec<SyscallStubPage>) -> (r: Vec<SyscallStubPage>)
    ensures
        r@ == src@,
{
    let mut out: Vec<SyscallStubPage> = Vec::new();
    let mut k: usize = 0;
    while k < src.len()
        invariant
            k <= src@.len(),
            out@ == src@.take(k as int),
        decreases src@.len() - k,
    {
        out.push(src[k]);
        proof {
            assert(src@.take(k as int + 1) =~= src@.take(k as int).push(src@[k as int]));
        }
        k = k + 1;
    }
    proof {
        assert(src@.take(src@.len() as int) =~= src@);
    }
    out
}

fn copy_memory_map(src: &Vec<ProcMapsEntry>) -> (r: Vec<ProcMapsEntry>)
    ensures
        r@.map_values(|e: ProcMapsEntry| e@) == src@.map_values(|e: ProcMapsEntry| e@),
{
    let mut out: Vec<ProcMapsEntry> = Vec::new();
    let mut k: usize = 0;
    while k < src.len()
        invariant
            k <= src@.len(),
            out@.map_values(|e: ProcMapsEntry| e@) == src@.take(k as int).map_values(
                |e: ProcMapsEntry| e@,
            ),
        decreases src@.len() - k,
    {
        let ghost pre = out@;
        out.push(src[k].duplicate());
        proof {
            assert(out@.map_values(|e: ProcMapsEntry| e@) =~= pre.map_values(|e: ProcMapsEntry| e@)
                .push(src@[k as int]@));
            assert(src@.take(k as int + 1).map_values(|e: ProcMapsEntry| e@) =~= src@.take(
                k as int,
            ).map_values(|e: ProcMapsEntry| e@).push(src@[k as int]@));
        }
        k = k + 1;
    }
    proof {
        assert(src@.take(src@.len() as int) =~= src@);
    }
    out
}

/// The table of live address spaces, indexed by the `space` field of the
/// task records.
pub struct SpaceTable {
    /// The spaces, in creation order; entries are never removed, so task
    /// records stay valid.
    pub spaces: Vec<AddressSpace>,
}

/// Every space of the table is in good standing.
pub open spec fn table_wf(t: &SpaceTable) -> bool {
    forall|k: int| 0 <= k < t.spaces@.len() ==> space_wf(&(#[trigger] t.spaces@[k]))
}

impl SpaceTable {
    /// An empty table.
    pub fn new() -> (r: SpaceTable)
        ensures
            table_wf(&r),
            r.spaces@.len() == 0,
    {
        SpaceTable { spaces: Vec::new() }
    }
}

/// One tracee thread under supervision.
pub struct TracedTask {
    /// Thread id, as `gettid()`; tracing addresses the thread, not the
    /// process.
    pub tid: i32,
    /// Process id, as `getpid()`.
    pub pid: i32,
    /// Parent process id.
    pub ppid: i32,
    /// Process group id.
    pub pgid: i32,
    /// True between a `vfork` and the `exec` that follows it: the address
    /// space is borrowed and about to be replaced, so patching is
    /// suppressed.
    pub in_vfork: bool,
    /// When set, the byte length of the instruction tail that follows the
    /// current syscall; used at syscall exit to single-step peers out of
    /// the patch zone.
    pub seccomp_hook_size: Option<usize>,
    /// Execution state.
    pub state: TaskState,
    /// Load address of the trampoline library in this tracee, when known.
    pub ldpreload_address: Option<u64>,
    /// Address of the scratch page, once injected.
    pub injected_mmap_page: Option<u64>,
    /// Address of the shared-state page, once injected.
    pub injected_shared_page: Option<u64>,
    /// Signal to re-inject on the next resume.
    pub signal_to_deliver: Option<i32>,
    /// Index of this thread's address space in the [`SpaceTable`].
    pub space: usize,
}

/// A task in good standing against a table: its space index is live.
pub open spec fn task_wf(t: &TracedTask, tbl: &SpaceTable) -> bool {
    t.space < tbl.spaces@.len()
}

impl TracedTask {
    /// A fresh task record for a first attach: its own new, empty address
    /// space; every set empty; state `Ready`.
    pub fn new(pid: i32, pgid: i32, ldpreload_address: Option<u64>, tbl: &mut SpaceTable) -> (r:
        TracedTask)
        requires
            table_wf(old(tbl)),
        ensures
            table_wf(final(tbl)),
            final(tbl).spaces@.len() == old(tbl).spaces@.len() + 1,
            forall|k: int|
                0 <= k < old(tbl).spaces@.len() ==> #[trigger] final(tbl).spaces@[k] == old(
                    tbl,
                ).spaces@[k],
            task_wf(&r, final(tbl)),
            r.space == old(tbl).spaces@.len(),
            space_empty(&final(tbl).spaces@[r.space as int]),
            r.tid == pid && r.pid == pid && r.ppid == pid && r.pgid == pgid,
            r.state == TaskState::Ready,
            !r.in_vfork,
            r.seccomp_hook_size is None,
            r.ldpreload_address == ldpreload_address,
            r.injected_mmap_page is None,
            r.injected_shared_page is None,
            r.signal_to_deliver is None,
    {
        let space = tbl.spaces.len();
        tbl.spaces.push(empty_space());
        TracedTask {
            tid: pid,
            pid,
            ppid: pid,
            pgid,
            in_vfork: false,
            seccomp_hook_size: Option::None,
            state: TaskState::Ready,
            ldpreload_address,
            injected_mmap_page: Option::None,
            injected_shared_page: Option::None,
            signal_to_deliver: Option::None,
            space,
        }
    }

    /// The task record of a new thread announced by a `clone` event: the
    /// child shares the caller's address space — its space index aliases the
    /// parent's, so a patch applied by either thread is seen by both.
    pub fn cloned(&self, child_tid: i32) -> (r: TracedTask)
        ensures
            r.space == self.space,
            r.tid == child_tid,
            r.pid == self.pid && r.ppid == self.pid && r.pgid == self.pgid,
            r.state == TaskState::Ready,
            !r.in_vfork,
            r.seccomp_hook_size is None,
            r.ldpreload_address == self.ldpreload_address,
            r.injected_mmap_page == self.injected_mmap_page,
            r.injected_shared_page == self.injected_shared_page,
            r.signal_to_deliver is None,
    {
        TracedTask {
            tid: child_tid,
            pid: self.pid,
            ppid: self.pid,
            pgid: self.pgid,
            in_vfork: false,
            seccomp_hook_size: Option::None,
            state: TaskState::Ready,
            ldpreload_address: self.ldpreload_address,
            injected_mmap_page: self.injected_mmap_page,
            injected_shared_page: self.injected_shared_page,
            signal_to_deliver: Option::None,
            space: self.space,
        }
    }

    /// The task record of a new process announced by a `fork` or `vfork`
    /// event: the child gets its own deep copy of the address-space sets
    /// and a fresh lockset, so later writes on either side stay invisible
    /// to the other.
    pub fn forked(&self, child_pid: i32, tbl: &mut SpaceTable) -> (r: TracedTask)
        requires
            table_wf(old(tbl)),
            task_wf(self, old(tbl)),
        ensures
            table_wf(final(tbl)),
            final(tbl).spaces@.len() == old(tbl).spaces@.len() + 1,
            forall|k: int|
                0 <= k < old(tbl).spaces@.len() ==> #[trigger] final(tbl).spaces@[k] == old(
                    tbl,
                ).spaces@[k],
            task_wf(&r, final(tbl)),
            r.space == old(tbl).spaces@.len(),
            r.space != self.space,
            space_sets_equal(
                &final(tbl).spaces@[r.space as int],
                &old(tbl).spaces@[self.space as int],
            ),
            r.tid == child_pid && r.pid == child_pid && r.ppid == self.pid && r.pgid == self.pgid,
            r.state == TaskState::Ready,
            !r.in_vfork,
            r.seccomp_hook_size is None,
            r.ldpreload_address == self.ldpreload_address,
            r.injected_mmap_page == self.injected_mmap_page,
            r.injected_shared_page == self.injected_shared_page,
            r.signal_to_deliver is None,
    {
        let space = tbl.spaces.len();
        let parent = &tbl.spaces[self.space];
        let copy = AddressSpace {
            memory_map: copy_memory_map(&parent.memory_map),
            stub_pages: copy_stub_pages(&parent.stub_pages),
            patched_syscalls: copy_u64s(&parent.patched_syscalls),
            unpatchable_syscalls: copy_u64s(&parent.unpatchable_syscalls),
            syscall_patch_lockset: RemoteRWLock::new(),
        };
        tbl.spaces.push(copy);
        TracedTask {
            tid: child_pid,
            pid: child_pid,
            ppid: self.pid,
            pgid: self.pgid,
            in_vfork: false,
            seccomp_hook_size: Option::None,
            state: TaskState::Ready,
            ldpreload_address: self.ldpreload_address,
            injected_mmap_page: self.injected_mmap_page,
            injected_shared_page: self.injected_shared_page,
            signal_to_deliver: Option::None,
            space,
        }
    }

    /// The exit code, for a task that has exited.
    pub fn exited(&self) -> (r: Option<i32>)
        ensures
            r == (match self.state {
                TaskState::Exited(code) => Option::Some(code),
                _ => Option::<i32>::None,
            }),
    {
        match self.state {
            TaskState::Exited(code) => Option::Some(code),
            _ => Option::None,
        }
    }

    /// Thread id.
    pub fn gettid(&self) -> (r: i32)
        ensures
            r == self.tid,
    {
        self.tid
    }

    /// Process id.
    pub fn getpid(&self) -> (r: i32)
        ensures
            r == self.pid,
    {
        self.pid
    }

    /// Parent process id.
    pub fn getppid(&self) -> (r: i32)
        ensures
            r == self.ppid,
    {
        self.ppid
    }

    /// Process group id.
    pub fn getpgid(&self) -> (r: i32)
        ensures
            r == self.pgid,
    {
        self.pgid
    }

    /// Has the syscall site at `rip` been patched in the thread's address
    /// space?
    pub fn is_patched_syscall(&self, tbl: &SpaceTable, rip: u64) -> (r: bool)
        requires
            task_wf(self, tbl),
        ensures
            r == tbl.spaces@[self.space as int].patched_syscalls@.contains(rip),
    {
        let patched = &tbl.spaces[self.space].patched_syscalls;
        let mut k: usize = 0;
        while k < patched.len()
            invariant
                k <= patched@.len(),
                self.space < tbl.spaces@.len(),
                patched@ == tbl.spaces@[self.space as int].patched_syscalls@,
                forall|m: int| 0 <= m < k ==> patched@[m] != rip,
            decreases patched@.len() - k,
        {
            if patched[k] == rip {
                proof {
                    assert(patched@[k as int] == rip);
                    assert(patched@.contains(rip));
                }
                return true;
            }
            k = k + 1;
        }
        proof {
            if patched@.contains(rip) {
                let m = choose|m: int| 0 <= m < patched@.len() && patched@[m] == rip;
                assert(false);
            }
        }
        false
    }

    /// Is the thread stopped at a seccomp trace event?
    pub fn task_state_is_seccomp(&self) -> (r: bool)
        ensures
            r == (self.state == TaskState::Event(EVENT_SECCOMP)),
    {
        match self.state {
            TaskState::Event(ev) => ev == EVENT_SECCOMP,
            _ => false,
        }
    }
}

/// Reset a task after `exec`: the old address space is gone, so the patched
/// set, the unpatchable set, the stub pages and the memory map are all
/// emptied, the lockset starts afresh, and the trampoline is unknown until
/// the tracee pre-init completes.
pub fn task_exec_reset(task: &mut TracedTask, tbl: &mut SpaceTable)
    requires
        table_wf(old(tbl)),
        task_wf(old(task), old(tbl)),
    ensures
        table_wf(final(tbl)),
        final(tbl).spaces@.len() == old(tbl).spaces@.len(),
        forall|k: int|
            0 <= k < old(tbl).spaces@.len() && k != old(task).space
                ==> #[trigger] final(tbl).spaces@[k] == old(tbl).spaces@[k],
        task_wf(final(task), final(tbl)),
        final(task).space == old(task).space,
        space_empty(&final(tbl).spaces@[final(task).space as int]),
        final(task).ldpreload_address is None,
        final(task).injected_mmap_page == Option::Some(
            crate::consts::SYSTRACE_PRIVATE_PAGE_OFFSET,
        ),
        final(task).signal_to_deliver is None,
        final(task).state == TaskState::Exited(0),
        !final(task).in_vfork,
        final(task).seccomp_hook_size is None,
        final(task).tid == old(task).tid && final(task).pid == old(task).pid && final(task).ppid
            == old(task).ppid && final(task).pgid == old(task).pgid,
{
    task.ldpreload_address = Option::None;
    task.injected_mmap_page = Option::Some(crate::consts::SYSTRACE_PRIVATE_PAGE_OFFSET);
    task.signal_to_deliver = Option::None;
    task.state = TaskState::Exited(0);
    task.in_vfork = false;
    task.seccomp_hook_size = Option::None;
    let ghost pre = tbl.spaces@;
    let fresh = empty_space();
    let old_entry = self_replace_space(tbl, task.space, fresh);
    proof {
        assert(final(tbl).spaces@ =~= pre.update(task.space as int, final(tbl).spaces@[task.space as int]));
    }
}

/// Replace the space at `i`, returning the old one.
fn self_replace_space(tbl: &mut SpaceTable, i: usize, fresh: AddressSpace) -> (r: AddressSpace)
    requires
        i < old(tbl).spaces@.len(),
    ensures
        final(tbl).spaces@.len() == old(tbl).spaces@.len(),
        final(tbl).spaces@[i as int] == fresh,
        forall|k: int|
            0 <= k < old(tbl).spaces@.len() && k != i ==> #[trigger] final(tbl).spaces@[k] == old(
                tbl,
            ).spaces@[k],
{
    let got = self_swap_in(&mut tbl.spaces, i, fresh);
    got
}

/// Swap `fresh` into slot `i` of a vector, returning the old element.
fn self_swap_in(v: &mut Vec<AddressSpace>, i: usize, fresh: AddressSpace) -> (r: AddressSpace)
    requires
        i < old(v)@.len(),
    ensures
        final(v)@.len() == old(v)@.len(),
        final(v)@[i as int] == fresh,
        forall|k: int|
            0 <= k < old(v)@.len() && k != i ==> #[trigger] final(v)@[k] == old(v)@[k],
        r == old(v)@[i as int],
{
    let got = v.remove(i);
    v.insert(i, fresh);
    proof {
        assert(final(v)@ =~= old(v)@.update(i as int, fresh));
    }
    got
}

/// Law, fork isolation: after a `fork`, a mutation of the child's sets —
/// here, inserting a site into the child's patched set — leaves every set
/// the parent sees unchanged, because the child's space index is fresh.
pub proof fn lemma_fork_isolation(
    parent: &TracedTask,
    child: &TracedTask,
    before: &SpaceTable,
    after: &SpaceTable,
)
    requires
        task_wf(parent, before),
        task_wf(child, before),
        child.space != parent.space,
        after.spaces@.len() == before.spaces@.len(),
        // the mutation touched only the child's space
        forall|k: int|
            0 <= k < before.spaces@.len() && k != child.space ==> #[trigger] after.spaces@[k]
                == before.spaces@[k],
    ensures
        after.spaces@[parent.space as int] == before.spaces@[parent.space as int],
        after.spaces@[parent.space as int].patched_syscalls@ == before.spaces@[
            parent.space as int
        ].patched_syscalls@,
{
}

/// Law, clone aliasing: sibling threads of one process name the same
/// space, so a site patched by one is seen as patched by the other.
pub proof fn lemma_clone_aliasing(a: &TracedTask, b: &TracedTask, tbl: &SpaceTable, rip: u64)
    requires
        task_wf(a, tbl),
        task_wf(b, tbl),
        a.space == b.space,
    ensures
        tbl.spaces@[a.space as int].patched_syscalls@.contains(rip) == tbl.spaces@[
            b.space as int
        ].patched_syscalls@.contains(rip),
{
}

} // verus!
