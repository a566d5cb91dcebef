use systrace::patch::{patch_syscall_with, register_stub_page, PatchError, PatchPlan};
use systrace::proc::decode_proc_maps;
use systrace::remote::{poke_word_value, word_bytes};
use systrace::stubs::{
    extended_jump_bytes, extended_jump_offset, extended_jump_pages, extended_jump_size,
    find_stub_page, gen_extended_jump_stubs, patch_site_bytes, search_stub_page, SyscallStubPage,
};
use systrace::task::{SpaceTable, TracedTask};
use systrace::diag::{show_stackframe, show_user_regs};
use systrace::machine::UserRegs;
use systrace::patch::update_memory_map;

#[test]
fn thunk_layout() {
    assert_eq!(extended_jump_size(), 16);
    assert_eq!(extended_jump_pages(), 1);
    assert_eq!(extended_jump_offset(0), 0);
    assert_eq!(extended_jump_offset(3), 48);
    let stub = extended_jump_bytes(0x1122_3344_5566_7788);
    assert_eq!(stub.len(), 16);
    // call *0(%rip)
    assert_eq!(&stub[0..6], &[0xff, 0x15, 0x00, 0x00, 0x00, 0x00]);
    // the entry quad, little endian
    assert_eq!(&stub[6..14], &[0x88, 0x77, 0x66, 0x55, 0x44, 0x33, 0x22, 0x11]);
    // ret, then one nop of padding
    assert_eq!(stub[14], 0xc3);
    assert_eq!(stub[15], 0x90);
}

#[test]
fn thunk_table_per_hook() {
    let offsets = vec![0x100u64, 0x200, 0x300];
    let table = gen_extended_jump_stubs(&offsets, 0x7f00_0000_0000);
    assert_eq!(table.len(), 3 * 16);
    assert_eq!(&table[0..16], extended_jump_bytes(0x7f00_0000_0100).as_slice());
    assert_eq!(&table[16..32], extended_jump_bytes(0x7f00_0000_0200).as_slice());
    assert_eq!(&table[32..48], extended_jump_bytes(0x7f00_0000_0300).as_slice());
}

#[test]
fn patch_bytes_forward_and_back() {
    // forward call: target above the site
    let bytes = patch_site_bytes(6, 0x401000, 0x500000);
    assert_eq!(bytes.len(), 8);
    // rel32 = 0x500000 - (0x401000 + 5) = 0xfeffb
    assert_eq!(&bytes[0..5], &[0xe8, 0xfb, 0xef, 0x0f, 0x00]);
    assert_eq!(&bytes[5..8], &[0x90, 0x90, 0x90]);
    // backward call: target below the site
    let back = patch_site_bytes(3, 0x500000, 0x401000);
    assert_eq!(back.len(), 5);
    // rel32 = 0x401000 - (0x500000 + 5) = -0xff005 = 0xfff00ffb
    assert_eq!(&back[0..5], &[0xe8, 0xfb, 0x0f, 0xf0, 0xff]);
}

#[test]
fn stub_page_search_in_reach() {
    let pages = vec![
        SyscallStubPage { address: 0x1000_0000, size: 0x1000, allocated: 192, prot: 1 | 4 },
        SyscallStubPage { address: 0x9000_0000, size: 0x1000, allocated: 192, prot: 1 | 4 },
    ];
    // a site just above the first page
    assert_eq!(find_stub_page(&pages, 0x1000_2000), Some(0x1000_0000));
    // a site far beyond the first page's reach falls to the second
    assert_eq!(find_stub_page(&pages, 0x9800_0000), Some(0x9000_0000));
    // a site out of everyone's reach
    assert_eq!(find_stub_page(&pages, 0xf0_0000_0000), None);
}

#[test]
fn slot_search_uses_map_gaps() {
    let maps = decode_proc_maps(b"400000-401000 r-xp 00000000 08:01 5\n600000-601000 rw-p 00000000 08:01 5\n");
    let slot = search_stub_page(&maps, 0x400800, 0x1000).expect("a gap exists");
    // the first candidate is the page after the first mapping, which is
    // free and within reach
    assert_eq!(slot, 0x401000);
}

#[test]
fn no_reachable_slot_refuses_the_patch() {
    // the whole neighborhood of the site is occupied: the only mapping
    // ends far outside the ±2 GiB reach, so no candidate slot serves the
    // site, and the site is recorded as unpatchable
    let mut tbl = SpaceTable::new();
    let task = TracedTask::new(500, 500, Some(0x7000_0000), &mut tbl);
    let maps = decode_proc_maps(b"0-fffffffffffff000 rw-p 00000000 00:00 0\n");
    assert_eq!(maps.len(), 1);
    update_memory_map(&mut tbl, task.space, maps);
    let rip = 0x401002u64;
    match patch_syscall_with(&task, &mut tbl, 0, 6, rip) {
        Err(PatchError::NoStubSlot) => {}
        _ => panic!("expected the patch to be refused for want of a slot"),
    }
    assert!(tbl.spaces[task.space].unpatchable_syscalls.contains(&rip));
    // the site is never retried: the next attempt refuses at once
    match patch_syscall_with(&task, &mut tbl, 0, 6, rip) {
        Err(PatchError::Unpatchable) => {}
        _ => panic!("an unpatchable site must stay refused"),
    }
}

#[test]
fn patch_refusals_in_order() {
    let mut tbl = SpaceTable::new();
    // no trampoline published yet
    let bare = TracedTask::new(600, 600, None, &mut tbl);
    match patch_syscall_with(&bare, &mut tbl, 0, 6, 0x401002) {
        Err(PatchError::NoTrampoline) => {}
        _ => panic!("without a trampoline the patch must be refused"),
    }
    // a contested write lock abandons the attempt for this call
    let task = TracedTask::new(601, 601, Some(0x7000_0000), &mut tbl);
    register_stub_page(&mut tbl, task.space, 0x7000_0000, 192);
    let rip = 0x7001_0000u64;
    tbl.spaces[task.space].syscall_patch_lockset.try_read_lock(9999, rip);
    match patch_syscall_with(&task, &mut tbl, 0, 6, rip) {
        Err(PatchError::WriteLockBusy) => {}
        _ => panic!("a held site must refuse the write lock"),
    }
    assert!(!task.is_patched_syscall(&tbl, rip));
    // once the peer releases, the patch goes through
    tbl.spaces[task.space].syscall_patch_lockset.try_read_unlock(9999, rip);
    match patch_syscall_with(&task, &mut tbl, 0, 6, rip) {
        Ok(PatchPlan::Ready(_)) => {}
        _ => panic!("expected a ready patch"),
    }
}

#[test]
fn word_granular_read_modify_write() {
    let bytes = word_bytes(0x1122_3344_5566_7788, 4);
    assert_eq!(bytes, vec![0x88, 0x77, 0x66, 0x55]);
    assert_eq!(word_bytes(0xff, 8).len(), 8);
    // a two-byte write keeps the upper six bytes of the original word
    let merged = poke_word_value(0x1122_3344_5566_7788, &[0xaa, 0xbb]);
    assert_eq!(merged, 0x1122_3344_5566_bbaa);
    // an eight-byte write replaces everything
    let full = poke_word_value(
        0x1122_3344_5566_7788,
        &[1, 2, 3, 4, 5, 6, 7, 8],
    );
    assert_eq!(full, 0x0807_0605_0403_0201);
}

#[test]
fn fault_dump_shows_registers() {
    let mut regs = UserRegs {
        rax: 0xdeadbeef, rbx: 0, rcx: 0, rdx: 0, rsi: 0, rdi: 0, rbp: 0, rsp: 0x7ffe_1000,
        r8: 0, r9: 0, r10: 0, r11: 0, r12: 0, r13: 0, r14: 0, r15: 0,
        rip: 0x401000, eflags: 0x246, orig_rax: 0, cs: 0x33, ss: 0x2b, ds: 0, es: 0, fs: 0, gs: 0,
    };
    regs.r15 = 0x15;
    let dump = show_user_regs(&regs);
    let text = String::from_utf8(dump).expect("the dump is ascii");
    assert!(text.starts_with("rax         deadbeef"));
    assert!(text.contains("rip           401000"));
    assert!(text.contains("cs 33 ss 2b"));
    assert_eq!(text.lines().count(), 7);

    let frame = show_stackframe(
        &vec![(0x7ffe_0ff8, 0x1111), (0x7ffe_1000, 0x2222), (0x7ffe_1008, 0x3333)],
        0x7ffe_1000,
    );
    let ftext = String::from_utf8(frame).expect("the frame is ascii");
    let lines: Vec<&str> = ftext.lines().collect();
    assert_eq!(lines.len(), 3);
    assert!(lines[0].starts_with("    "));
    assert!(lines[1].starts_with(" => "));
    assert!(lines[1].contains("7ffe1000"));
    assert!(lines[2].starts_with("    "));
}
