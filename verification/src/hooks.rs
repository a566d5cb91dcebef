//! The static catalog of recognized post-syscall instruction patterns.
//!
//! Each entry pairs the byte sequence that common C-library code generators
//! emit immediately after a `syscall` instruction with the name of the
//! trampoline entry point that reproduces the original semantics.  A
//! multi-instruction pattern carries the risk that a local branch targets a
//! byte inside the patched range; such patterns are marked `is_multi` and
//! their sites are single-stepped clear of the zone at syscall exit.
//! Matching is by first prefix match in table order.

use vstd::prelude::*;

verus! {

/// Mathematical image of a catalog entry.
pub ghost struct HookV {
    /// Whether the pattern spans more than one instruction.
    pub is_multi: bool,
    /// The post-syscall byte sequence.
    pub instructions: Seq<u8>,
    /// Name of the trampoline entry point.
    pub symbol: Seq<char>,
}

/// One recognized post-syscall instruction pattern.
pub struct SyscallPatchHook {
    /// Whether the pattern spans more than one instruction.  A local jump
    /// within the enclosing function may then target a byte inside the
    /// patched range (observed in `clock_nanosleep`), so sibling threads are
    /// stepped out of the zone before the bytes are rewritten.
    pub is_multi: bool,
    /// The byte sequence immediately following the `syscall` opcode.
    pub instructions: Vec<u8>,
    /// Name of the trampoline entry point for this pattern.
    pub symbol: String,
}

impl View for SyscallPatchHook {
    type V = HookV;

    open spec fn view(&self) -> HookV {
        HookV { is_multi: self.is_multi, instructions: self.instructions@, symbol: self.symbol@ }
    }
}

/// The catalog: the patterns, in match order.
pub open spec fn hook_catalog() -> Seq<HookV> {
    seq![
        // cmp $-4095,%rax — common glibc post-syscall compare (e.g. read)
        HookV {
            is_multi: false,
            instructions: seq![0x48u8, 0x3du8, 0x01u8, 0xf0u8, 0xffu8, 0xffu8],
            symbol: "_syscall_hook_trampoline_48_3d_01_f0_ff_ff"@,
        },
        // cmp $-4096,%rax (e.g. __libc_recv)
        HookV {
            is_multi: false,
            instructions: seq![0x48u8, 0x3du8, 0x00u8, 0xf0u8, 0xffu8, 0xffu8],
            symbol: "_syscall_hook_trampoline_48_3d_00_f0_ff_ff"@,
        },
        // mov (%rsp),%rdi
        HookV {
            is_multi: false,
            instructions: seq![0x48u8, 0x8bu8, 0x3cu8, 0x24u8],
            symbol: "_syscall_hook_trampoline_48_8b_3c_24"@,
        },
        // pop %rdx; pop %rsi; ret (__lll_unlock_wake)
        HookV {
            is_multi: true,
            instructions: seq![0x5au8, 0x5eu8, 0xc3u8],
            symbol: "_syscall_hook_trampoline_5a_5e_c3"@,
        },
        // mov %eax,%edx; neg %edx (posix_fadvise64)
        HookV {
            is_multi: true,
            instructions: seq![0x89u8, 0xc2u8, 0xf7u8, 0xdau8],
            symbol: "_syscall_hook_trampoline_89_c2_f7_da"@,
        },
        // nop; nop; nop — the VDSO patch target
        HookV {
            is_multi: true,
            instructions: seq![0x90u8, 0x90u8, 0x90u8],
            symbol: "_syscall_hook_trampoline_90_90_90"@,
        },
        // mov $1,%rdx (pthread_barrier_wait)
        HookV {
            is_multi: false,
            instructions: seq![0xbau8, 0x01u8, 0x00u8, 0x00u8, 0x00u8],
            symbol: "_syscall_hook_trampoline_ba_01_00_00_00"@,
        },
        // mov %eax,%ecx; xor %edx,%edx (pthread_sigmask)
        HookV {
            is_multi: true,
            instructions: seq![0x89u8, 0xc1u8, 0x31u8, 0xd2u8],
            symbol: "_syscall_hook_trampoline_89_c1_31_d2"@,
        },
        // retq; nopl 0x0(%rax,%rax,1) (getpid)
        HookV {
            is_multi: true,
            instructions: seq![
                0xc3u8,
                0x0fu8,
                0x1fu8,
                0x84u8,
                0x00u8,
                0x00u8,
                0x00u8,
                0x00u8,
                0x00u8,
            ],
            symbol: "_syscall_hook_trampoline_c3_nop"@,
        },
        // retq; nopl 0x0(%rax,%rax,1), shorter encoding
        HookV {
            is_multi: true,
            instructions: seq![0xc3u8, 0x0fu8, 0x1fu8, 0x44u8, 0x00u8, 0x00u8],
            symbol: "_syscall_hook_trampoline_c3_nop"@,
        },
        // retq; nopl (%rax)
        HookV {
            is_multi: true,
            instructions: seq![0xc3u8, 0x0fu8, 0x1fu8, 0x00u8],
            symbol: "_syscall_hook_trampoline_c3_nop"@,
        },
        // retq; xchg %ax,%ax
        HookV {
            is_multi: true,
            instructions: seq![0xc3u8, 0x66u8, 0x90u8],
            symbol: "_syscall_hook_trampoline_c3_nop"@,
        },
    ]
}

fn hook_entry(is_multi: bool, instructions: Vec<u8>, symbol: &str) -> (r: SyscallPatchHook)
    ensures
        r@ == (HookV { is_multi, instructions: instructions@, symbol: symbol@ }),
{
    SyscallPatchHook { is_multi, instructions, symbol: symbol.to_string() }
}

/// Build the catalog, exactly as [`hook_catalog`] lists it.
pub fn syscall_hooks() -> (r: Vec<SyscallPatchHook>)
    ensures
        r@.map_values(|h: SyscallPatchHook| h@) == hook_catalog(),
        r@.len() == 12,
{
    let mut v: Vec<SyscallPatchHook> = Vec::new();
    let mut ins: Vec<u8>;
    ins = vec![0x48u8, 0x3du8, 0x01u8, 0xf0u8, 0xffu8, 0xffu8];
    v.push(hook_entry(false, ins, "_syscall_hook_trampoline_48_3d_01_f0_ff_ff"));
    ins = vec![0x48u8, 0x3du8, 0x00u8, 0xf0u8, 0xffu8, 0xffu8];
    v.push(hook_entry(false, ins, "_syscall_hook_trampoline_48_3d_00_f0_ff_ff"));
    ins = vec![0x48u8, 0x8bu8, 0x3cu8, 0x24u8];
    v.push(hook_entry(false, ins, "_syscall_hook_trampoline_48_8b_3c_24"));
    ins = vec![0x5au8, 0x5eu8, 0xc3u8];
    v.push(hook_entry(true, ins, "_syscall_hook_trampoline_5a_5e_c3"));
    ins = vec![0x89u8, 0xc2u8, 0xf7u8, 0xdau8];
    v.push(hook_entry(true, ins, "_syscall_hook_trampoline_89_c2_f7_da"));
    ins = vec![0x90u8, 0x90u8, 0x90u8];
    v.push(hook_entry(true, ins, "_syscall_hook_trampoline_90_90_90"));
    ins = vec![0xbau8, 0x01u8, 0x00u8, 0x00u8, 0x00u8];
    v.push(hook_entry(false, ins, "_syscall_hook_trampoline_ba_01_00_00_00"));
    ins = vec![0x89u8, 0xc1u8, 0x31u8, 0xd2u8];
    v.push(hook_entry(true, ins, "_syscall_hook_trampoline_89_c1_31_d2"));
    ins = vec![0xc3u8, 0x0fu8, 0x1fu8, 0x84u8, 0x00u8, 0x00u8, 0x00u8, 0x00u8, 0x00u8];
    v.push(hook_entry(true, ins, "_syscall_hook_trampoline_c3_nop"));
    ins = vec![0xc3u8, 0x0fu8, 0x1fu8, 0x44u8, 0x00u8, 0x00u8];
    v.push(hook_entry(true, ins, "_syscall_hook_trampoline_c3_nop"));
    ins = vec![0xc3u8, 0x0fu8, 0x1fu8, 0x00u8];
    v.push(hook_entry(true, ins, "_syscall_hook_trampoline_c3_nop"));
    ins = vec![0xc3u8, 0x66u8, 0x90u8];
    v.push(hook_entry(true, ins, "_syscall_hook_trampoline_c3_nop"));
    proof {
        assert(v@.map_values(|h: SyscallPatchHook| h@) =~= hook_catalog());
    }
    v
}

/// A hook matches when its pattern is a prefix of the bytes at the site.
pub open spec fn hook_matches(h: HookV, bytes: Seq<u8>) -> bool {
    h.instructions.len() <= bytes.len() && h.instructions == bytes.take(h.instructions.len() as int)
}

/// Is `p` a prefix of `bytes`?
fn is_prefix_of(p: &Vec<u8>, bytes: &[u8]) -> (r: bool)
    ensures
        r == (p@.len() <= bytes@.len() && p@ == bytes@.take(p@.len() as int)),
{
    if p.len() > bytes.len() {
        return false;
    }
    let mut k: usize = 0;
    while k < p.len()
        invariant
            k <= p@.len() <= bytes@.len(),
            forall|m: int| 0 <= m < k ==> p@[m] == bytes@[m],
        decreases p@.len() - k,
    {
        if p[k] != bytes[k] {
            proof {
                assert(p@[k as int] != bytes@.take(p@.len() as int)[k as int]);
            }
            return false;
        }
        k = k + 1;
    }
    proof {
        assert(p@ =~= bytes@.take(p@.len() as int));
    }
    true
}

/// Find the first catalog entry whose pattern is a prefix of the bytes read
/// at the instruction after a `syscall`; ties go to table order.  `None`
/// when no pattern matches.
pub fn find_syscall_hook(hooks: &Vec<SyscallPatchHook>, bytes: &[u8]) -> (r: Option<usize>)
    ensures
        match r {
            Option::Some(i) => {
                &&& i < hooks@.len()
                &&& hook_matches(hooks@[i as int]@, bytes@)
                &&& forall|j: int| 0 <= j < i ==> !hook_matches(#[trigger] hooks@[j]@, bytes@)
            },
            Option::None => forall|j: int|
                0 <= j < hooks@.len() ==> !hook_matches(#[trigger] hooks@[j]@, bytes@),
        },
{
    let mut i: usize = 0;
    while i < hooks.len()
        invariant
            i <= hooks@.len(),
            forall|j: int| 0 <= j < i ==> !hook_matches(#[trigger] hooks@[j]@, bytes@),
        decreases hooks@.len() - i,
    {
        if is_prefix_of(&hooks[i].instructions, bytes) {
            return Option::Some(i);
        }
        i = i + 1;
    }
    Option::None
}

} // verus!
