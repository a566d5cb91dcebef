use systrace::patch::{finish_patch, patch_syscall_with, register_stub_page, PatchError, PatchPlan};
use systrace::state::SystraceState;
use systrace::machine::{do_ptrace_fork, do_ptrace_vfork, do_ptrace_clone};
use systrace::task::{task_exec_reset, SpaceTable, TaskState, TracedTask};

fn fresh_patched_world() -> (TracedTask, SpaceTable, u64) {
    let mut tbl = SpaceTable::new();
    let task = TracedTask::new(100, 100, Some(0x7000_0000), &mut tbl);
    // a stub page at 0x70000000, fully thunked, within reach of the site
    register_stub_page(&mut tbl, task.space, 0x7000_0000, 192);
    let rip = 0x7001_0000u64;
    match patch_syscall_with(&task, &mut tbl, 0, 6, rip) {
        Ok(PatchPlan::Ready(c)) => {
            assert_eq!(c.site, rip - 2);
            assert_eq!(c.target, 0x7000_0000);
            assert_eq!(c.bytes.len(), 8);
            assert_eq!(c.bytes[0], 0xe8);
        }
        _ => panic!("expected a ready patch"),
    }
    finish_patch(&mut tbl, task.space, task.tid, rip);
    (task, tbl, rip)
}

#[test]
fn patched_site_is_recorded() {
    let (task, mut tbl, rip) = fresh_patched_world();
    assert!(task.is_patched_syscall(&tbl, rip));
    assert!(!task.is_patched_syscall(&tbl, rip + 0x10));
    // a second attempt at the same site refuses: the site is already
    // patched
    match patch_syscall_with(&task, &mut tbl, 0, 6, rip) {
        Err(PatchError::AlreadyPatched) => {}
        _ => panic!("a patched site must refuse a second patch"),
    }
}

#[test]
fn clone_aliases_the_patched_set() {
    // a patch applied by one thread is observed by a sibling of the same
    // process
    let (task, mut tbl, rip) = fresh_patched_world();
    let mut st = SystraceState::new();
    let sibling = do_ptrace_clone(&task, 101, &mut st);
    assert_eq!(sibling.space, task.space);
    assert!(sibling.is_patched_syscall(&tbl, rip));
    assert_eq!(st.nr_cloned, 1);
    // and a patch by the sibling is observed by the first thread
    let rip2 = 0x7001_0200u64;
    match patch_syscall_with(&sibling, &mut tbl, 1, 6, rip2) {
        Ok(PatchPlan::Ready(_)) => {}
        _ => panic!("expected a ready patch"),
    }
    finish_patch(&mut tbl, sibling.space, sibling.tid, rip2);
    assert!(task.is_patched_syscall(&tbl, rip2));
}

#[test]
fn fork_isolates_the_patched_set() {
    // mutations of the child's sets after a fork are not observable in
    // the parent
    let (task, mut tbl, rip) = fresh_patched_world();
    let mut st = SystraceState::new();
    let child = do_ptrace_fork(&task, 200, &mut tbl, &mut st);
    assert_ne!(child.space, task.space);
    // the child starts with a copy of the parent's sets
    assert!(child.is_patched_syscall(&tbl, rip));
    // a patch in the child stays in the child
    let rip2 = 0x7001_0400u64;
    match patch_syscall_with(&child, &mut tbl, 2, 4, rip2) {
        Ok(PatchPlan::Ready(_)) => {}
        _ => panic!("expected a ready patch"),
    }
    finish_patch(&mut tbl, child.space, child.tid, rip2);
    assert!(child.is_patched_syscall(&tbl, rip2));
    assert!(!task.is_patched_syscall(&tbl, rip2));
    assert_eq!(st.nr_forked, 1);
}

#[test]
fn vfork_suppresses_patching_until_exec() {
    // between the vfork event and the exec event, no patch is applied in
    // the child; after exec, the child's sets are empty
    let (task, mut tbl, _rip) = fresh_patched_world();
    let mut st = SystraceState::new();
    let mut child = do_ptrace_vfork(&task, 300, &mut tbl, &mut st);
    assert!(child.in_vfork);
    let rip2 = 0x7001_0600u64;
    match patch_syscall_with(&child, &mut tbl, 0, 6, rip2) {
        Err(PatchError::InVfork) => {}
        _ => panic!("a vfork child must refuse to patch"),
    }
    assert!(!child.is_patched_syscall(&tbl, rip2));
    // exec: everything address-space-scoped is reset
    task_exec_reset(&mut child, &mut tbl);
    assert!(!child.in_vfork);
    assert!(child.ldpreload_address.is_none());
    assert_eq!(tbl.spaces[child.space].patched_syscalls.len(), 0);
    assert_eq!(tbl.spaces[child.space].unpatchable_syscalls.len(), 0);
    assert_eq!(tbl.spaces[child.space].stub_pages.len(), 0);
    assert_eq!(tbl.spaces[child.space].memory_map.len(), 0);
}

#[test]
fn exec_reset_empties_every_set() {
    let (mut task, mut tbl, rip) = fresh_patched_world();
    assert!(task.is_patched_syscall(&tbl, rip));
    task_exec_reset(&mut task, &mut tbl);
    assert!(!task.is_patched_syscall(&tbl, rip));
    assert_eq!(tbl.spaces[task.space].stub_pages.len(), 0);
    assert_eq!(task.injected_mmap_page, Some(0x7000_0000));
    assert!(matches!(task.state, TaskState::Exited(0)));
}

#[test]
fn task_record_identities() {
    let mut tbl = SpaceTable::new();
    let task = TracedTask::new(42, 40, None, &mut tbl);
    assert_eq!(task.gettid(), 42);
    assert_eq!(task.getpid(), 42);
    assert_eq!(task.getppid(), 42);
    assert_eq!(task.getpgid(), 40);
    assert!(task.exited().is_none());
    let child = task.cloned(43);
    assert_eq!(child.gettid(), 43);
    assert_eq!(child.getpid(), 42);
    let mut gone = task.cloned(44);
    gone.state = TaskState::Exited(7);
    assert_eq!(gone.exited(), Some(7));
    assert!(!gone.task_state_is_seccomp());
    gone.state = TaskState::Event(7);
    assert!(gone.task_state_is_seccomp());
}
