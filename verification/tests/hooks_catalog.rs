use systrace::hooks::{find_syscall_hook, syscall_hooks, SyscallPatchHook};

#[test]
fn catalog_is_preserved() {
    let hooks = syscall_hooks();
    assert_eq!(hooks.len(), 12);
    assert_eq!(hooks[0].instructions, vec![0x48, 0x3d, 0x01, 0xf0, 0xff, 0xff]);
    assert!(!hooks[0].is_multi);
    assert_eq!(hooks[0].symbol, "_syscall_hook_trampoline_48_3d_01_f0_ff_ff");
    assert_eq!(hooks[1].instructions, vec![0x48, 0x3d, 0x00, 0xf0, 0xff, 0xff]);
    assert_eq!(hooks[2].instructions, vec![0x48, 0x8b, 0x3c, 0x24]);
    assert!(hooks[3].is_multi);
    assert_eq!(hooks[3].instructions, vec![0x5a, 0x5e, 0xc3]);
    assert_eq!(hooks[5].instructions, vec![0x90, 0x90, 0x90]);
    assert_eq!(hooks[5].symbol, "_syscall_hook_trampoline_90_90_90");
    assert_eq!(hooks[8].instructions.len(), 9);
    assert_eq!(hooks[11].instructions, vec![0xc3, 0x66, 0x90]);
    assert_eq!(hooks[11].symbol, "_syscall_hook_trampoline_c3_nop");
}

#[test]
fn find_hook_matches_prefix() {
    let hooks = syscall_hooks();
    // the glibc read tail: cmp $-4095,%rax followed by anything
    let bytes = [0x48u8, 0x3d, 0x01, 0xf0, 0xff, 0xff, 0x73, 0x01, 0xc3, 0, 0, 0, 0, 0, 0, 0];
    assert_eq!(find_syscall_hook(&hooks, &bytes), Some(0));
    // retq; xchg %ax,%ax
    let tail = [0xc3u8, 0x66, 0x90, 0x55, 0x48, 0x89, 0xe5, 0, 0, 0, 0, 0, 0, 0, 0, 0];
    assert_eq!(find_syscall_hook(&hooks, &tail), Some(11));
    // nothing recognizable
    let noise = [0u8; 16];
    assert_eq!(find_syscall_hook(&hooks, &noise), None);
    // too short a read cannot match a longer pattern
    let short = [0x48u8, 0x3d];
    assert_eq!(find_syscall_hook(&hooks, &short), None);
}

#[test]
fn find_hook_first_match_wins() {
    let a = SyscallPatchHook { is_multi: false, instructions: vec![0x90, 0x90], symbol: String::from("first") };
    let b = SyscallPatchHook { is_multi: false, instructions: vec![0x90, 0x90, 0x90], symbol: String::from("second") };
    let table = vec![a, b];
    let bytes = [0x90u8, 0x90, 0x90, 0x90];
    assert_eq!(find_syscall_hook(&table, &bytes), Some(0));
}
