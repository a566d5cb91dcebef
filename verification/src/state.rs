//! The supervisor's image of the shared-state page counters.
//!
//! The shared-state page holds event counters read by both the supervisor
//! and the tracee-side trampoline.  Every mutation here goes through an
//! increment that saturates at the maximum, so each counter is monotonic,
//! non-decreasing across the life of the tracee: every mutating operation
//! ensures [`counters_monotonic_from`], and
//! [`lemma_counters_monotonic_trans`] chains those steps over a whole run.

use vstd::prelude::*;

verus! {

/// The event counters of the shared-state page.
pub struct SystraceState {
    /// Syscalls observed in total.
    pub nr_syscalls: u64,
    /// Syscalls that went through the supervisor (not patched).
    pub nr_syscalls_ptraced: u64,
    /// Syscalls whose sites were patched.
    pub nr_syscalls_patched: u64,
    /// Processes created by `fork` or `vfork`.
    pub nr_forked: u64,
    /// Threads created by `clone`.
    pub nr_cloned: u64,
    /// Tasks that exited.
    pub nr_exited: u64,
    /// Processes that completed `execve` under supervision.
    pub nr_process_spawns: u64,
}

/// Every counter of `b` is at least the matching counter of `a`.
pub open spec fn counters_monotonic_from(a: SystraceState, b: SystraceState) -> bool {
    &&& b.nr_syscalls >= a.nr_syscalls
    &&& b.nr_syscalls_ptraced >= a.nr_syscalls_ptraced
    &&& b.nr_syscalls_patched >= a.nr_syscalls_patched
    &&& b.nr_forked >= a.nr_forked
    &&& b.nr_cloned >= a.nr_cloned
    &&& b.nr_exited >= a.nr_exited
    &&& b.nr_process_spawns >= a.nr_process_spawns
}

/// Law: monotonicity composes, so across any sequence of supervisor steps
/// the counters never decrease.
pub proof fn lemma_counters_monotonic_trans(a: SystraceState, b: SystraceState, c: SystraceState)
    requires
        counters_monotonic_from(a, b),
        counters_monotonic_from(b, c),
    ensures
        counters_monotonic_from(a, c),
{
}

/// A counter bump: one more, saturating at the maximum.
pub open spec fn bumped(c: u64) -> u64 {
    if c < u64::MAX {
        (c + 1) as u64
    } else {
        c
    }
}

fn bump(c: u64) -> (r: u64)
    ensures
        r == bumped(c),
        r >= c,
{
    if c < u64::MAX {
        c + 1
    } else {
        c
    }
}

impl SystraceState {
    /// Fresh counters, all zero.
    pub fn new() -> (r: SystraceState)
        ensures
            r.nr_syscalls == 0,
            r.nr_syscalls_ptraced == 0,
            r.nr_syscalls_patched == 0,
            r.nr_forked == 0,
            r.nr_cloned == 0,
            r.nr_exited == 0,
            r.nr_process_spawns == 0,
    {
        SystraceState {
            nr_syscalls: 0,
            nr_syscalls_ptraced: 0,
            nr_syscalls_patched: 0,
            nr_forked: 0,
            nr_cloned: 0,
            nr_exited: 0,
            nr_process_spawns: 0,
        }
    }

    /// Count one syscall that runs through the supervisor: total and
    /// ptraced both rise.
    pub fn count_ptraced_syscall(&mut self)
        ensures
            final(self).nr_syscalls == bumped(old(self).nr_syscalls),
            final(self).nr_syscalls_ptraced == bumped(old(self).nr_syscalls_ptraced),
            final(self).nr_syscalls_patched == old(self).nr_syscalls_patched,
            final(self).nr_forked == old(self).nr_forked,
            final(self).nr_cloned == old(self).nr_cloned,
            final(self).nr_exited == old(self).nr_exited,
            final(self).nr_process_spawns == old(self).nr_process_spawns,
            counters_monotonic_from(*old(self), *final(self)),
    {
        self.nr_syscalls = bump(self.nr_syscalls);
        self.nr_syscalls_ptraced = bump(self.nr_syscalls_ptraced);
    }

    /// Count one syscall whose site was patched on this event.
    pub fn count_patched_syscall(&mut self)
        ensures
            final(self).nr_syscalls_patched == bumped(old(self).nr_syscalls_patched),
            final(self).nr_syscalls == old(self).nr_syscalls,
            final(self).nr_syscalls_ptraced == old(self).nr_syscalls_ptraced,
            final(self).nr_forked == old(self).nr_forked,
            final(self).nr_cloned == old(self).nr_cloned,
            final(self).nr_exited == old(self).nr_exited,
            final(self).nr_process_spawns == old(self).nr_process_spawns,
            counters_monotonic_from(*old(self), *final(self)),
    {
        self.nr_syscalls_patched = bump(self.nr_syscalls_patched);
    }

    /// Count a `fork` or `vfork`: total, ptraced and forked rise.
    pub fn count_forked(&mut self)
        ensures
            final(self).nr_syscalls == bumped(old(self).nr_syscalls),
            final(self).nr_syscalls_ptraced == bumped(old(self).nr_syscalls_ptraced),
            final(self).nr_forked == bumped(old(self).nr_forked),
            final(self).nr_syscalls_patched == old(self).nr_syscalls_patched,
            final(self).nr_cloned == old(self).nr_cloned,
            final(self).nr_exited == old(self).nr_exited,
            final(self).nr_process_spawns == old(self).nr_process_spawns,
            counters_monotonic_from(*old(self), *final(self)),
    {
        self.nr_syscalls = bump(self.nr_syscalls);
        self.nr_syscalls_ptraced = bump(self.nr_syscalls_ptraced);
        self.nr_forked = bump(self.nr_forked);
    }

    /// Count a `clone`: total, ptraced and cloned rise.
    pub fn count_cloned(&mut self)
        ensures
            final(self).nr_syscalls == bumped(old(self).nr_syscalls),
            final(self).nr_syscalls_ptraced == bumped(old(self).nr_syscalls_ptraced),
            final(self).nr_cloned == bumped(old(self).nr_cloned),
            final(self).nr_syscalls_patched == old(self).nr_syscalls_patched,
            final(self).nr_forked == old(self).nr_forked,
            final(self).nr_exited == old(self).nr_exited,
            final(self).nr_process_spawns == old(self).nr_process_spawns,
            counters_monotonic_from(*old(self), *final(self)),
    {
        self.nr_syscalls = bump(self.nr_syscalls);
        self.nr_syscalls_ptraced = bump(self.nr_syscalls_ptraced);
        self.nr_cloned = bump(self.nr_cloned);
    }

    /// Count a task exit.
    pub fn count_exited(&mut self)
        ensures
            final(self).nr_exited == bumped(old(self).nr_exited),
            final(self).nr_syscalls == old(self).nr_syscalls,
            final(self).nr_syscalls_ptraced == old(self).nr_syscalls_ptraced,
            final(self).nr_syscalls_patched == old(self).nr_syscalls_patched,
            final(self).nr_forked == old(self).nr_forked,
            final(self).nr_cloned == old(self).nr_cloned,
            final(self).nr_process_spawns == old(self).nr_process_spawns,
            counters_monotonic_from(*old(self), *final(self)),
    {
        self.nr_exited = bump(self.nr_exited);
    }

    /// Count a completed `execve`.
    pub fn count_process_spawn(&mut self)
        ensures
            final(self).nr_process_spawns == bumped(old(self).nr_process_spawns),
            final(self).nr_syscalls == old(self).nr_syscalls,
            final(self).nr_syscalls_ptraced == old(self).nr_syscalls_ptraced,
            final(self).nr_syscalls_patched == old(self).nr_syscalls_patched,
            final(self).nr_forked == old(self).nr_forked,
            final(self).nr_cloned == old(self).nr_cloned,
            final(self).nr_exited == old(self).nr_exited,
            counters_monotonic_from(*old(self), *final(self)),
    {
        self.nr_process_spawns = bump(self.nr_process_spawns);
    }
}

/// The bytes of the level name `error`.
pub open spec fn lvl_error() -> Seq<u8> {
    seq![101u8, 114u8, 114u8, 111u8, 114u8]
}

/// The bytes of the level name `warn`.
pub open spec fn lvl_warn() -> Seq<u8> {
    seq![119u8, 97u8, 114u8, 110u8]
}

/// The bytes of the level name `info`.
pub open spec fn lvl_info() -> Seq<u8> {
    seq![105u8, 110u8, 102u8, 111u8]
}

/// The bytes of the level name `debug`.
pub open spec fn lvl_debug() -> Seq<u8> {
    seq![100u8, 101u8, 98u8, 117u8, 103u8]
}

/// The bytes of the level name `trace`.
pub open spec fn lvl_trace() -> Seq<u8> {
    seq![116u8, 114u8, 97u8, 99u8, 101u8]
}

/// Does `name` spell `word`?
fn name_is(name: &[u8], word: &[u8]) -> (r: bool)
    ensures
        r == (name@ == word@),
{
    if name.len() != word.len() {
        proof {
            assert(name@.len() != word@.len());
        }
        return false;
    }
    let mut k: usize = 0;
    while k < name.len()
        invariant
            k <= name@.len(),
            name@.len() == word@.len(),
            forall|m: int| 0 <= m < k ==> name@[m] == word@[m],
        decreases name@.len() - k,
    {
        if name[k] != word[k] {
            return false;
        }
        k = k + 1;
    }
    proof {
        assert(name@ =~= word@);
    }
    true
}

/// The tool log level named by the value of `SYSTOOL_LOG`: `error` through
/// `trace` map to one through five; any other value is unrecognized and
/// leaves the level unset.
pub fn systool_log_level(name: &[u8]) -> (r: Option<i64>)
    ensures
        name@ == lvl_error() ==> r == Option::Some(1i64),
        name@ == lvl_warn() ==> r == Option::Some(2i64),
        name@ == lvl_info() ==> r == Option::Some(3i64),
        name@ == lvl_debug() ==> r == Option::Some(4i64),
        name@ == lvl_trace() ==> r == Option::Some(5i64),
        !(name@ == lvl_error() || name@ == lvl_warn() || name@ == lvl_info() || name@
            == lvl_debug() || name@ == lvl_trace()) ==> r is None,
        r is Some ==> 1 <= r->0 <= 5,
{
    let error_w: [u8; 5] = [101, 114, 114, 111, 114];
    let warn_w: [u8; 4] = [119, 97, 114, 110];
    let info_w: [u8; 4] = [105, 110, 102, 111];
    let debug_w: [u8; 5] = [100, 101, 98, 117, 103];
    let trace_w: [u8; 5] = [116, 114, 97, 99, 101];
    proof {
        assert(error_w@ =~= lvl_error());
        assert(warn_w@ =~= lvl_warn());
        assert(info_w@ =~= lvl_info());
        assert(debug_w@ =~= lvl_debug());
        assert(trace_w@ =~= lvl_trace());
    }
    if name_is(name, error_w.as_slice()) {
        Option::Some(1)
    } else if name_is(name, warn_w.as_slice()) {
        Option::Some(2)
    } else if name_is(name, info_w.as_slice()) {
        Option::Some(3)
    } else if name_is(name, debug_w.as_slice()) {
        Option::Some(4)
    } else if name_is(name, trace_w.as_slice()) {
        Option::Some(5)
    } else {
        Option::None
    }
}

/// The log level a tracee's logger runs at, read back from the shared-state
/// slot: one through five name `error` through `trace`; any other value
/// leaves logging off.
pub fn log_level_of_slot(value: i64) -> (r: Option<u8>)
    ensures
        r == (if 1 <= value <= 5 {
            Option::Some(value as u8)
        } else {
            Option::<u8>::None
        }),
{
    if 1 <= value && value <= 5 {
        Option::Some(value as u8)
    } else {
        Option::None
    }
}

} // verus!
