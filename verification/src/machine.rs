//! Decisions of the tracing event loop.
//!
//! The supervisor is a single-threaded loop over wait-style stops.  The
//! loop itself — resuming tracees, waiting, reading registers — is I/O and
//! lives in the unverified shell; each decision it takes is a function
//! here, from plain state and event values to the next state and action.

use vstd::prelude::*;
use crate::consts::{
    ERESTARTNOHAND, ERESTARTNOINTR, ERESTARTSYS, EVENT_CLONE, EVENT_EXEC, EVENT_EXIT, EVENT_FORK,
    EVENT_SECCOMP, EVENT_VFORK, EVENT_VFORK_DONE, MAP_ANONYMOUS, MAP_FIXED, MAP_PRIVATE, PROT_EXEC,
    PROT_READ, PROT_WRITE, SIGCHLD, SIGILL, SIGSEGV, SIGTRAP, SYS_MMAP,
    SYSTRACE_PRIVATE_PAGE_OFFSET, SYSTRACE_PRIVATE_PAGE_SIZE,
};
use crate::state::SystraceState;
use crate::task::{SpaceTable, TaskState, TracedTask, table_wf, task_wf};

verus! {

/// The general-purpose register file of a stopped tracee.
#[derive(Clone, Copy, Debug, PartialEq, Eq, Structural)]
pub struct UserRegs {
    /// Accumulator; holds the syscall return value.
    pub rax: u64,
    /// Base register.
    pub rbx: u64,
    /// Counter register.
    pub rcx: u64,
    /// Third syscall argument.
    pub rdx: u64,
    /// Second syscall argument.
    pub rsi: u64,
    /// First syscall argument.
    pub rdi: u64,
    /// Frame base pointer.
    pub rbp: u64,
    /// Stack pointer.
    pub rsp: u64,
    /// Fifth syscall argument.
    pub r8: u64,
    /// Sixth syscall argument.
    pub r9: u64,
    /// Fourth syscall argument.
    pub r10: u64,
    /// Scratch register.
    pub r11: u64,
    /// Callee-saved register.
    pub r12: u64,
    /// Callee-saved register.
    pub r13: u64,
    /// Callee-saved register.
    pub r14: u64,
    /// Callee-saved register.
    pub r15: u64,
    /// Instruction pointer.
    pub rip: u64,
    /// Flags register.
    pub eflags: u64,
    /// Syscall number as the kernel recorded it on entry.
    pub orig_rax: u64,
    /// Code segment selector.
    pub cs: u64,
    /// Stack segment selector.
    pub ss: u64,
    /// Data segment selector.
    pub ds: u64,
    /// Extra segment selector.
    pub es: u64,
    /// FS segment selector.
    pub fs: u64,
    /// GS segment selector.
    pub gs: u64,
}

/// What the loop must do with a task, decided from its state alone.
#[derive(Clone, Copy, Debug, PartialEq, Eq, Structural)]
pub enum RunDecision {
    /// The task can be scheduled: resume it, delivering its pending signal.
    Resume,
    /// Group-stop on a terminating signal: continue with the signal and
    /// record the exit code `0x80 | signal`.
    DeliverTerminating(i32),
    /// Signal-delivery stop: remember the signal for re-injection; for
    /// `SIGSEGV` and `SIGILL` also dump the fault context first.
    RecordSignal { sig: i32, dump: bool },
    /// A ptrace event stop with this code: dispatch it.
    HandleEvent(u64),
    /// A syscall-exit stop: run the exit handling.
    HandleSyscallExit,
    /// The task already exited with this code; scheduling it again is a
    /// driver error.
    AlreadyExited(i32),
}

/// The transition table of the task state machine, one stop at a time.
pub fn run_decision(state: TaskState) -> (r: RunDecision)
    ensures
        r == (match state {
            TaskState::Ready => RunDecision::Resume,
            TaskState::Running => RunDecision::Resume,
            TaskState::Signaled(sig) => RunDecision::DeliverTerminating((0x80i32 | sig) as i32),
            TaskState::Stopped(sig) => RunDecision::RecordSignal {
                sig,
                dump: sig == SIGSEGV || sig == SIGILL,
            },
            TaskState::Event(ev) => RunDecision::HandleEvent(ev),
            TaskState::Syscall => RunDecision::HandleSyscallExit,
            TaskState::Exited(code) => RunDecision::AlreadyExited(code),
        }),
{
    match state {
        TaskState::Ready => RunDecision::Resume,
        TaskState::Running => RunDecision::Resume,
        TaskState::Signaled(sig) => RunDecision::DeliverTerminating(0x80i32 | sig),
        TaskState::Stopped(sig) => RunDecision::RecordSignal {
            sig,
            dump: sig == SIGSEGV || sig == SIGILL,
        },
        TaskState::Event(ev) => RunDecision::HandleEvent(ev),
        TaskState::Syscall => RunDecision::HandleSyscallExit,
        TaskState::Exited(code) => RunDecision::AlreadyExited(code),
    }
}

/// The ptrace events the loop dispatches on.
#[derive(Clone, Copy, Debug, PartialEq, Eq, Structural)]
pub enum EventKind {
    /// A `fork` created a new process.
    Fork,
    /// A `vfork` created a new process that borrows the address space.
    Vfork,
    /// A `clone` created a new thread.
    Clone,
    /// The tracee completed `execve`.
    Exec,
    /// A `vfork` parent resumed.
    VforkDone,
    /// The tracee is about to exit.
    Exit,
    /// A seccomp trace event for a filtered syscall.
    Seccomp,
    /// Any other code: a protocol violation.
    Unknown,
}

/// Name the ptrace event behind an event code.
pub fn event_kind(ev: u64) -> (r: EventKind)
    ensures
        r == (if ev == EVENT_FORK {
            EventKind::Fork
        } else if ev == EVENT_VFORK {
            EventKind::Vfork
        } else if ev == EVENT_CLONE {
            EventKind::Clone
        } else if ev == EVENT_EXEC {
            EventKind::Exec
        } else if ev == EVENT_VFORK_DONE {
            EventKind::VforkDone
        } else if ev == EVENT_EXIT {
            EventKind::Exit
        } else if ev == EVENT_SECCOMP {
            EventKind::Seccomp
        } else {
            EventKind::Unknown
        }),
{
    if ev == EVENT_FORK {
        EventKind::Fork
    } else if ev == EVENT_VFORK {
        EventKind::Vfork
    } else if ev == EVENT_CLONE {
        EventKind::Clone
    } else if ev == EVENT_EXEC {
        EventKind::Exec
    } else if ev == EVENT_VFORK_DONE {
        EventKind::VforkDone
    } else if ev == EVENT_EXIT {
        EventKind::Exit
    } else if ev == EVENT_SECCOMP {
        EventKind::Seccomp
    } else {
        EventKind::Unknown
    }
}

/// Will the kernel re-drive this syscall?  At syscall exit, a return of
/// `ERESTARTSYS`, `ERESTARTNOINTR` or `ERESTARTNOHAND`, accompanied by a
/// pending `SIGTRAP` or `SIGCHLD`, keeps the task in the syscall-exit
/// state.  `ERESTART_RESTARTBLOCK` is not retried here: the kernel converts
/// it through its restart-block mechanism.
pub fn should_restart_syscall(rax: i64, pending_sig: i32) -> (r: bool)
    ensures
        r == ((rax == -ERESTARTSYS || rax == -ERESTARTNOINTR || rax == -ERESTARTNOHAND) && (
        pending_sig == SIGTRAP || pending_sig == SIGCHLD)),
{
    let restart_code = rax == -512 || rax == -513 || rax == -514;
    restart_code && (pending_sig == SIGTRAP || pending_sig == SIGCHLD)
}

/// What a seccomp trace event asks for.
#[derive(Clone, Copy, Debug, PartialEq, Eq, Structural)]
pub enum SeccompAction {
    /// Event data says the syscall was not filtered: the invariants for
    /// safe progress are broken, and the supervisor must stop.
    Violation,
    /// The site no longer holds a `syscall` opcode: a sibling thread
    /// patched it concurrently.  Skip the pending call and single-step
    /// until the instruction pointer reaches the start of the patched
    /// sequence, then resume.
    Resynchronize,
    /// The site is intact: take the read lock and try to patch.
    TryPatch,
}

/// Decide a seccomp trace event from its event data and the word read at
/// the syscall instruction's address (`rip - 2`).
pub fn seccomp_action(ev: u64, insn_word: u64) -> (r: SeccompAction)
    ensures
        r == (if ev == 0x7fff {
            SeccompAction::Violation
        } else if !crate::spec_is_syscall_word(insn_word) {
            SeccompAction::Resynchronize
        } else {
            SeccompAction::TryPatch
        }),
{
    if ev == 0x7fff {
        SeccompAction::Violation
    } else if !crate::is_syscall_insn_word(insn_word) {
        SeccompAction::Resynchronize
    } else {
        SeccompAction::TryPatch
    }
}

/// At syscall exit with a recorded hook size, peers are single-stepped
/// while the instruction pointer stays strictly inside the patch zone
/// `(rip0, rip0 + hook_size)`: once every thread tests false here, none is
/// executing inside the range that will be rewritten.
pub fn still_inside_zone(rip_now: u64, rip0: u64, hook_size: u64) -> (r: bool)
    requires
        rip0 + hook_size <= u64::MAX,
    ensures
        r == (rip0 < rip_now && rip_now < rip0 + hook_size),
{
    rip0 < rip_now && rip_now < rip0 + hook_size
}

/// The trampoline load base published at the well-known tracee slot: a
/// nonzero word, rounded down to its page.  Zero means the library has not
/// initialized yet.
pub fn trampoline_base_of_word(word: u64) -> (r: Option<u64>)
    ensures
        word == 0 ==> r is None,
        word != 0 ==> r == Option::Some(word & 0xffff_ffff_ffff_f000u64),
{
    if word != 0 {
        Option::Some(word & 0xffff_ffff_ffff_f000u64)
    } else {
        Option::None
    }
}

// ---------------------------------------------------------------------------
// Remote-syscall injection
// ---------------------------------------------------------------------------

/// The register file that makes a stopped tracee perform a syscall: the
/// number in `rax` and `orig_rax`, the six arguments in the kernel ABI
/// order `rdi, rsi, rdx, r10, r8, r9`, and the instruction pointer at one
/// of the two scratch-page entry stubs.  Everything else is preserved.
pub fn inject_syscall_regs(
    regs: &UserRegs,
    nr: i64,
    a0: i64,
    a1: i64,
    a2: i64,
    a3: i64,
    a4: i64,
    a5: i64,
    rip: u64,
) -> (r: UserRegs)
    ensures
        r.orig_rax == nr as u64,
        r.rax == nr as u64,
        r.rdi == a0 as u64,
        r.rsi == a1 as u64,
        r.rdx == a2 as u64,
        r.r10 == a3 as u64,
        r.r8 == a4 as u64,
        r.r9 == a5 as u64,
        r.rip == rip,
        r == (UserRegs {
            orig_rax: nr as u64,
            rax: nr as u64,
            rdi: a0 as u64,
            rsi: a1 as u64,
            rdx: a2 as u64,
            r10: a3 as u64,
            r8: a4 as u64,
            r9: a5 as u64,
            rip,
            ..*regs
        }),
{
    UserRegs {
        orig_rax: nr as u64,
        rax: nr as u64,
        rdi: a0 as u64,
        rsi: a1 as u64,
        rdx: a2 as u64,
        r10: a3 as u64,
        r8: a4 as u64,
        r9: a5 as u64,
        rip,
        ..*regs
    }
}

/// The register file that skips the pending kernel syscall after a seccomp
/// stop: the syscall number is replaced by `-1`, so the kernel runs
/// nothing; everything else is preserved.  A plain continue is not enough:
/// resume semantics after a seccomp event differ from a general stop, and
/// the original call could slip through.
pub fn skip_seccomp_syscall_regs(regs: &UserRegs) -> (r: UserRegs)
    ensures
        r.orig_rax == (-1i64) as u64,
        r == (UserRegs { orig_rax: (-1i64) as u64, ..*regs }),
{
    UserRegs { orig_rax: (-1i64) as u64, ..*regs }
}

/// The register file of the scripted `mmap` run during tracee pre-init,
/// with the instruction pointer already at a `syscall` opcode: allocate the
/// scratch page at its fixed address, readable, writable and executable,
/// private, anonymous and fixed.
pub fn preinit_mmap_regs(regs: &UserRegs) -> (r: UserRegs)
    ensures
        r == (UserRegs {
            orig_rax: SYS_MMAP as u64,
            rax: SYS_MMAP as u64,
            rdi: SYSTRACE_PRIVATE_PAGE_OFFSET,
            rsi: SYSTRACE_PRIVATE_PAGE_SIZE,
            rdx: (PROT_READ | PROT_WRITE | PROT_EXEC) as u64,
            r10: (MAP_PRIVATE | MAP_FIXED | MAP_ANONYMOUS) as u64,
            r8: (-1i64) as u64,
            r9: 0u64,
            ..*regs
        }),
{
    UserRegs {
        orig_rax: SYS_MMAP as u64,
        rax: SYS_MMAP as u64,
        rdi: SYSTRACE_PRIVATE_PAGE_OFFSET,
        rsi: SYSTRACE_PRIVATE_PAGE_SIZE,
        rdx: (PROT_READ | PROT_WRITE | PROT_EXEC) as u64,
        r10: (MAP_PRIVATE | MAP_FIXED | MAP_ANONYMOUS) as u64,
        r8: (-1i64) as u64,
        r9: 0u64,
        ..*regs
    }
}

/// The word written at the tracee's entry point on `exec`: the low four
/// bytes become `0f 05 cc cc` — a `syscall` followed by two breakpoints —
/// and the upper four bytes keep their saved value.
pub fn exec_breakpoint_word(saved: u64) -> (r: u64)
    ensures
        r & 0xffff_ffff == 0xcc05_0fcc,
        r >> 32 == saved >> 32,
{
    let r = (saved & 0xffff_ffff_0000_0000u64) | 0xcc05_0fccu64;
    proof {
        assert(((saved & 0xffff_ffff_0000_0000u64) | 0xcc05_0fccu64) & 0xffff_ffff
            == 0xcc05_0fcc) by (bit_vector);
        assert(((saved & 0xffff_ffff_0000_0000u64) | 0xcc05_0fccu64) >> 32 == saved >> 32)
            by (bit_vector);
    }
    r
}

/// How a stop during an injected syscall is read.
#[derive(Clone, Copy, Debug, PartialEq, Eq, Structural)]
pub enum InjectionStop {
    /// `SIGTRAP` from the `int3` after the call: the syscall completed.
    Completed,
    /// `SIGCHLD` arrived instead: record it for re-delivery and read the
    /// result as usual.
    ChildSignal,
    /// Any other stop breaks the injection protocol: the supervisor must
    /// stop.
    Violation,
}

/// Classify the stop signal seen while an injected syscall runs.
pub fn classify_injection_stop(sig: i32) -> (r: InjectionStop)
    ensures
        r == (if sig == SIGTRAP {
            InjectionStop::Completed
        } else if sig == SIGCHLD {
            InjectionStop::ChildSignal
        } else {
            InjectionStop::Violation
        }),
{
    if sig == SIGTRAP {
        InjectionStop::Completed
    } else if sig == SIGCHLD {
        InjectionStop::ChildSignal
    } else {
        InjectionStop::Violation
    }
}

/// Split a raw syscall return into result or errno: a value in
/// `[-4096, -1]` is an error and carries the negated errno; anything else
/// is success.
pub fn syscall_ret(ret: i64) -> (r: Result<i64, i64>)
    ensures
        r == (if -4096 <= ret && ret <= -1 {
            Result::<i64, i64>::Err((-ret) as i64)
        } else {
            Result::<i64, i64>::Ok(ret)
        }),
{
    if -4096 <= ret && ret <= -1 {
        Err(-ret)
    } else {
        Ok(ret)
    }
}

/// Read the result of an injected syscall from the accumulator after the
/// stop: a word above the unsigned image of `-4096` is a kernel error and
/// carries the errno — the word's distance from zero; anything else is the
/// call's return value.
pub fn injection_result(rax: u64) -> (r: Result<i64, i32>)
    ensures
        rax > 0xffff_ffff_ffff_f000u64 ==> (match r {
            Result::Err(e) => 1 <= e < 4096 && rax + e == 0x1_0000_0000_0000_0000,
            Result::Ok(_) => false,
        }),
        rax <= 0xffff_ffff_ffff_f000u64 ==> r == Result::<i64, i32>::Ok(rax as i64),
{
    if rax > 0xffff_ffff_ffff_f000u64 {
        let e: u64 = (u64::MAX - rax) + 1;
        Err(e as i32)
    } else {
        Ok(rax as i64)
    }
}

// ---------------------------------------------------------------------------
// Process-creation and exit events
// ---------------------------------------------------------------------------

/// Handle a `clone` event: record the new sibling thread, which shares the
/// parent's address space, and count the event.
pub fn do_ptrace_clone(
    task: &TracedTask,
    child_tid: i32,
    st: &mut SystraceState,
) -> (r: TracedTask)
    ensures
        r.space == task.space,
        r.tid == child_tid && r.pid == task.pid,
        r.state == TaskState::Ready,
        !r.in_vfork,
        final(st).nr_cloned == crate::state::bumped(old(st).nr_cloned),
        crate::state::counters_monotonic_from(*old(st), *final(st)),
{
    st.count_cloned();
    task.cloned(child_tid)
}

/// Handle a `fork` event: record the new child process with a deep copy of
/// the address-space sets, and count the event.
pub fn do_ptrace_fork(
    task: &TracedTask,
    child_pid: i32,
    tbl: &mut SpaceTable,
    st: &mut SystraceState,
) -> (r: TracedTask)
    requires
        table_wf(old(tbl)),
        task_wf(task, old(tbl)),
    ensures
        table_wf(final(tbl)),
        task_wf(&r, final(tbl)),
        r.space != task.space,
        forall|k: int|
            0 <= k < old(tbl).spaces@.len() ==> #[trigger] final(tbl).spaces@[k] == old(
                tbl,
            ).spaces@[k],
        crate::task::space_sets_equal(
            &final(tbl).spaces@[r.space as int],
            &old(tbl).spaces@[task.space as int],
        ),
        r.tid == child_pid && r.pid == child_pid && r.ppid == task.pid,
        !r.in_vfork,
        final(st).nr_forked == crate::state::bumped(old(st).nr_forked),
        crate::state::counters_monotonic_from(*old(st), *final(st)),
{
    st.count_forked();
    task.forked(child_pid, tbl)
}

/// Handle a `vfork` event: as a `fork`, but the child borrows the address
/// space until it execs, so it is marked `in_vfork` and patching in it is
/// suppressed until then.
pub fn do_ptrace_vfork(
    task: &TracedTask,
    child_pid: i32,
    tbl: &mut SpaceTable,
    st: &mut SystraceState,
) -> (r: TracedTask)
    requires
        table_wf(old(tbl)),
        task_wf(task, old(tbl)),
    ensures
        table_wf(final(tbl)),
        task_wf(&r, final(tbl)),
        r.space != task.space,
        forall|k: int|
            0 <= k < old(tbl).spaces@.len() ==> #[trigger] final(tbl).spaces@[k] == old(
                tbl,
            ).spaces@[k],
        r.tid == child_pid && r.pid == child_pid && r.ppid == task.pid,
        r.in_vfork,
        final(st).nr_forked == crate::state::bumped(old(st).nr_forked),
        crate::state::counters_monotonic_from(*old(st), *final(st)),
{
    st.count_forked();
    let mut child = task.forked(child_pid, tbl);
    child.in_vfork = true;
    child
}

/// Handle an exit event: count it and pass the exit code on; the shell
/// then detaches the thread.
pub fn do_ptrace_event_exit(event_retval: i64, st: &mut SystraceState) -> (r: i32)
    ensures
        r == event_retval as i32,
        final(st).nr_exited == crate::state::bumped(old(st).nr_exited),
        crate::state::counters_monotonic_from(*old(st), *final(st)),
{
    st.count_exited();
    event_retval as i32
}

} // verus!
