use systrace::machine::{
    classify_injection_stop, event_kind, exec_breakpoint_word, inject_syscall_regs,
    injection_result, preinit_mmap_regs, run_decision, seccomp_action, should_restart_syscall,
    skip_seccomp_syscall_regs, still_inside_zone, syscall_ret, trampoline_base_of_word, EventKind,
    InjectionStop, RunDecision, SeccompAction, UserRegs,
};
use systrace::state::{log_level_of_slot, systool_log_level, SystraceState};
use systrace::task::TaskState;
use systrace::is_syscall_insn_word;

fn zero_regs() -> UserRegs {
    UserRegs {
        rax: 0, rbx: 0, rcx: 0, rdx: 0, rsi: 0, rdi: 0, rbp: 0, rsp: 0,
        r8: 0, r9: 0, r10: 0, r11: 0, r12: 0, r13: 0, r14: 0, r15: 0,
        rip: 0, eflags: 0, orig_rax: 0, cs: 0, ss: 0, ds: 0, es: 0, fs: 0, gs: 0,
    }
}

#[test]
fn transition_table() {
    assert_eq!(run_decision(TaskState::Ready), RunDecision::Resume);
    assert_eq!(run_decision(TaskState::Running), RunDecision::Resume);
    assert_eq!(run_decision(TaskState::Signaled(9)), RunDecision::DeliverTerminating(0x80 | 9));
    assert_eq!(
        run_decision(TaskState::Stopped(11)),
        RunDecision::RecordSignal { sig: 11, dump: true }
    );
    assert_eq!(
        run_decision(TaskState::Stopped(4)),
        RunDecision::RecordSignal { sig: 4, dump: true }
    );
    assert_eq!(
        run_decision(TaskState::Stopped(17)),
        RunDecision::RecordSignal { sig: 17, dump: false }
    );
    assert_eq!(run_decision(TaskState::Event(7)), RunDecision::HandleEvent(7));
    assert_eq!(run_decision(TaskState::Syscall), RunDecision::HandleSyscallExit);
    assert_eq!(run_decision(TaskState::Exited(3)), RunDecision::AlreadyExited(3));
}

#[test]
fn event_codes() {
    assert_eq!(event_kind(1), EventKind::Fork);
    assert_eq!(event_kind(2), EventKind::Vfork);
    assert_eq!(event_kind(3), EventKind::Clone);
    assert_eq!(event_kind(4), EventKind::Exec);
    assert_eq!(event_kind(5), EventKind::VforkDone);
    assert_eq!(event_kind(6), EventKind::Exit);
    assert_eq!(event_kind(7), EventKind::Seccomp);
    assert_eq!(event_kind(99), EventKind::Unknown);
}

#[test]
fn restartable_syscalls() {
    assert!(should_restart_syscall(-512, 5));
    assert!(should_restart_syscall(-513, 17));
    assert!(should_restart_syscall(-514, 5));
    // ERESTART_RESTARTBLOCK is left to the kernel's restart mechanism
    assert!(!should_restart_syscall(-516, 5));
    // a restart code without the accompanying signal does not restart
    assert!(!should_restart_syscall(-512, 9));
    assert!(!should_restart_syscall(0, 5));
    assert!(!should_restart_syscall(-2, 5));
}

#[test]
fn seccomp_actions() {
    // a word beginning 0f 05 is an intact syscall site
    let intact = 0x3d48_050fu64;
    assert!(is_syscall_insn_word(intact));
    assert_eq!(seccomp_action(0, intact), SeccompAction::TryPatch);
    // after a sibling's patch the site starts with e8
    let patched = 0x0000_10e8u64;
    assert!(!is_syscall_insn_word(patched));
    assert_eq!(seccomp_action(0, patched), SeccompAction::Resynchronize);
    // event data 0x7fff marks an unfiltered syscall: a protocol violation
    assert_eq!(seccomp_action(0x7fff, intact), SeccompAction::Violation);
}

#[test]
fn stepping_out_of_the_patch_zone() {
    // a multi-instruction tail of 4 bytes at 0x1000: peers are stepped
    // while strictly inside (0x1000, 0x1004)
    assert!(!still_inside_zone(0x1000, 0x1000, 4));
    assert!(still_inside_zone(0x1001, 0x1000, 4));
    assert!(still_inside_zone(0x1003, 0x1000, 4));
    assert!(!still_inside_zone(0x1004, 0x1000, 4));
    assert!(!still_inside_zone(0x0fff, 0x1000, 4));
}

#[test]
fn trampoline_base_rounding() {
    assert_eq!(trampoline_base_of_word(0), None);
    assert_eq!(trampoline_base_of_word(0x7f00_1234_5678), Some(0x7f00_1234_5000));
    assert_eq!(trampoline_base_of_word(0x1000), Some(0x1000));
}

#[test]
fn injection_register_files() {
    let mut regs = zero_regs();
    regs.rbx = 77;
    regs.rsp = 0x7ffe_0000;
    let inj = inject_syscall_regs(&regs, 9, 0x70000000, 4096, 7, 0x32, -1, 0, 0x7000_0008);
    assert_eq!(inj.orig_rax, 9);
    assert_eq!(inj.rax, 9);
    assert_eq!(inj.rdi, 0x70000000);
    assert_eq!(inj.rsi, 4096);
    assert_eq!(inj.rdx, 7);
    assert_eq!(inj.r10, 0x32);
    assert_eq!(inj.r8, u64::MAX);
    assert_eq!(inj.r9, 0);
    assert_eq!(inj.rip, 0x7000_0008);
    // untouched registers survive
    assert_eq!(inj.rbx, 77);
    assert_eq!(inj.rsp, 0x7ffe_0000);

    let skipped = skip_seccomp_syscall_regs(&regs);
    assert_eq!(skipped.orig_rax, u64::MAX);
    assert_eq!(skipped.rbx, 77);

    let pre = preinit_mmap_regs(&regs);
    assert_eq!(pre.orig_rax, 9);
    assert_eq!(pre.rdi, 0x7000_0000);
    assert_eq!(pre.rsi, 0x1000);
    assert_eq!(pre.rdx, 7);
    assert_eq!(pre.r10, 0x32);
    assert_eq!(pre.r8, u64::MAX);
}

#[test]
fn exec_breakpoint_word_keeps_upper_half() {
    let w = exec_breakpoint_word(0x1122_3344_5566_7788);
    assert_eq!(w, 0x1122_3344_cc05_0fcc);
}

#[test]
fn injection_stops() {
    assert_eq!(classify_injection_stop(5), InjectionStop::Completed);
    assert_eq!(classify_injection_stop(17), InjectionStop::ChildSignal);
    assert_eq!(classify_injection_stop(11), InjectionStop::Violation);
}

#[test]
fn syscall_returns() {
    assert_eq!(syscall_ret(5), Ok(5));
    assert_eq!(syscall_ret(0), Ok(0));
    assert_eq!(syscall_ret(-2), Err(2));
    assert_eq!(syscall_ret(-4096), Err(4096));
    assert_eq!(syscall_ret(-4097), Ok(-4097));
    assert_eq!(injection_result(u64::MAX), Err(1));
    assert_eq!(injection_result(0u64.wrapping_sub(12)), Err(12));
    assert_eq!(injection_result(0x7000_0000), Ok(0x7000_0000));
}

#[test]
fn counters_never_decrease() {
    let mut st = SystraceState::new();
    st.count_ptraced_syscall();
    assert_eq!((st.nr_syscalls, st.nr_syscalls_ptraced), (1, 1));
    st.count_patched_syscall();
    assert_eq!(st.nr_syscalls_patched, 1);
    st.count_forked();
    st.count_cloned();
    st.count_exited();
    st.count_process_spawn();
    assert_eq!(st.nr_syscalls, 3);
    assert_eq!(st.nr_syscalls_ptraced, 3);
    assert_eq!(st.nr_forked, 1);
    assert_eq!(st.nr_cloned, 1);
    assert_eq!(st.nr_exited, 1);
    assert_eq!(st.nr_process_spawns, 1);
    // each step left every counter at or above its old value
    let snapshot = (st.nr_syscalls, st.nr_forked);
    st.count_ptraced_syscall();
    assert!(st.nr_syscalls >= snapshot.0 && st.nr_forked >= snapshot.1);
}

#[test]
fn log_levels() {
    assert_eq!(systool_log_level(b"error"), Some(1));
    assert_eq!(systool_log_level(b"warn"), Some(2));
    assert_eq!(systool_log_level(b"info"), Some(3));
    assert_eq!(systool_log_level(b"debug"), Some(4));
    assert_eq!(systool_log_level(b"trace"), Some(5));
    assert_eq!(systool_log_level(b"loud"), None);
    assert_eq!(systool_log_level(b""), None);
    assert_eq!(log_level_of_slot(3), Some(3));
    assert_eq!(log_level_of_slot(0), None);
    assert_eq!(log_level_of_slot(9), None);
}
