//! Fault diagnostics: the register dump and the stack window.
//!
//! When a tracee takes `SIGSEGV` or `SIGILL`, the supervisor dumps its
//! registers, a window of its stack, the bytes around its instruction
//! pointer and the memory map, then delivers the signal unchanged.  The
//! remote reads are I/O and live in the unverified shell; the formatters
//! here turn the values read into the diagnostic text, byte for byte as
//! their specifications state.

use vstd::prelude::*;
use crate::machine::UserRegs;
use crate::proc::{blank_run, digits_of, push_all};

verus! {

/// A value in a sixteen-column hex field, right-aligned with blanks.
pub open spec fn hex_field16(v: u64) -> Seq<u8> {
    let ds = digits_of(v as nat, 16);
    if ds.len() < 16 {
        blank_run((16 - ds.len()) as nat) + ds
    } else {
        ds
    }
}

/// A value in a twelve-column hex field, right-aligned with blanks.
pub open spec fn hex_field12(v: u64) -> Seq<u8> {
    let ds = digits_of(v as nat, 16);
    if ds.len() < 12 {
        blank_run((12 - ds.len()) as nat) + ds
    } else {
        ds
    }
}

fn push_hex_field(out: &mut Vec<u8>, v: u64, width: usize)
    requires
        width == 12 || width == 16,
    ensures
        width == 16 ==> final(out)@ == old(out)@ + hex_field16(v),
        width == 12 ==> final(out)@ == old(out)@ + hex_field12(v),
{
    let ds = crate::proc::format_radix(v, 16);
    let ghost mid = out@;
    if ds.len() < width {
        let pad = width - ds.len();
        let mut k: usize = 0;
        while k < pad
            invariant
                k <= pad,
                out@ == mid + blank_run(k as nat),
            decreases pad - k,
        {
            out.push(32);
            proof {
                assert(mid + blank_run(k as nat + 1) =~= (mid + blank_run(k as nat)).push(32u8));
            }
            k = k + 1;
        }
    }
    push_all(out, ds.as_slice());
    proof {
        if width == 16 {
            assert(out@ =~= mid + hex_field16(v));
        } else {
            assert(out@ =~= mid + hex_field12(v));
        }
    }
}

/// A value in a bare hex field with no padding.
fn push_hex(out: &mut Vec<u8>, v: u64)
    ensures
        final(out)@ == old(out)@ + digits_of(v as nat, 16),
{
    let ds = crate::proc::format_radix(v, 16);
    push_all(out, ds.as_slice());
}

/// Render the register dump of a stopped tracee.
#[verifier::rlimit(100)]
#[verifier::spinoff_prover]
pub fn show_user_regs(r: &UserRegs) -> (out: Vec<u8>)
    ensures
        out@ == spec_show_user_regs_bytes(*r),
{
    let mut out: Vec<u8> = Vec::new();
    let l_rax: [u8; 4] = [114, 97, 120, 32];
    push_all(&mut out, l_rax.as_slice());
    push_hex_field(&mut out, r.rax, 16);
    let l_rbx: [u8; 5] = [32, 114, 98, 120, 32];
    push_all(&mut out, l_rbx.as_slice());
    push_hex_field(&mut out, r.rbx, 16);
    let l_rcx: [u8; 5] = [32, 114, 99, 120, 32];
    push_all(&mut out, l_rcx.as_slice());
    push_hex_field(&mut out, r.rcx, 16);
    let l_rdx: [u8; 5] = [32, 114, 100, 120, 32];
    push_all(&mut out, l_rdx.as_slice());
    push_hex_field(&mut out, r.rdx, 16);
    let l_rsi: [u8; 5] = [10, 114, 115, 105, 32];
    push_all(&mut out, l_rsi.as_slice());
    push_hex_field(&mut out, r.rsi, 16);
    let l_rdi: [u8; 5] = [32, 114, 100, 105, 32];
    push_all(&mut out, l_rdi.as_slice());
    push_hex_field(&mut out, r.rdi, 16);
    let l_rbp: [u8; 5] = [32, 114, 98, 112, 32];
    push_all(&mut out, l_rbp.as_slice());
    push_hex_field(&mut out, r.rbp, 16);
    let l_rsp: [u8; 5] = [32, 114, 115, 112, 32];
    push_all(&mut out, l_rsp.as_slice());
    push_hex_field(&mut out, r.rsp, 16);
    let l_r8: [u8; 5] = [10, 32, 114, 56, 32];
    push_all(&mut out, l_r8.as_slice());
    push_hex_field(&mut out, r.r8, 16);
    let l_r9: [u8; 6] = [32, 32, 114, 57, 32, 32];
    push_all(&mut out, l_r9.as_slice());
    // the double blank before and after r9 aligns the narrow name; the
    // value itself still sits in a sixteen-column field
    push_hex_field(&mut out, r.r9, 16);
    let l_r10: [u8; 5] = [32, 114, 49, 48, 32];
    push_all(&mut out, l_r10.as_slice());
    push_hex_field(&mut out, r.r10, 16);
    let l_r11: [u8; 5] = [32, 114, 49, 49, 32];
    push_all(&mut out, l_r11.as_slice());
    push_hex_field(&mut out, r.r11, 16);
    let l_r12: [u8; 5] = [10, 114, 49, 50, 32];
    push_all(&mut out, l_r12.as_slice());
    push_hex_field(&mut out, r.r12, 16);
    let l_r13: [u8; 5] = [32, 114, 49, 51, 32];
    push_all(&mut out, l_r13.as_slice());
    push_hex_field(&mut out, r.r13, 16);
    let l_r14: [u8; 5] = [32, 114, 49, 52, 32];
    push_all(&mut out, l_r14.as_slice());
    push_hex_field(&mut out, r.r14, 16);
    let l_r15: [u8; 5] = [32, 114, 49, 53, 32];
    push_all(&mut out, l_r15.as_slice());
    push_hex_field(&mut out, r.r15, 16);
    let l_rip: [u8; 5] = [10, 114, 105, 112, 32];
    push_all(&mut out, l_rip.as_slice());
    push_hex_field(&mut out, r.rip, 16);
    let l_efl: [u8; 8] = [32, 101, 102, 108, 97, 103, 115, 32];
    push_all(&mut out, l_efl.as_slice());
    push_hex_field(&mut out, r.eflags, 16);
    let l_cs: [u8; 4] = [10, 99, 115, 32];
    push_all(&mut out, l_cs.as_slice());
    push_hex(&mut out, r.cs);
    let l_ss: [u8; 4] = [32, 115, 115, 32];
    push_all(&mut out, l_ss.as_slice());
    push_hex(&mut out, r.ss);
    let l_ds: [u8; 4] = [32, 100, 115, 32];
    push_all(&mut out, l_ds.as_slice());
    push_hex(&mut out, r.ds);
    let l_es: [u8; 4] = [32, 101, 115, 32];
    push_all(&mut out, l_es.as_slice());
    push_hex(&mut out, r.es);
    let l_fs: [u8; 4] = [10, 102, 115, 32];
    push_all(&mut out, l_fs.as_slice());
    push_hex(&mut out, r.fs);
    let l_gs: [u8; 4] = [32, 103, 115, 32];
    push_all(&mut out, l_gs.as_slice());
    push_hex(&mut out, r.gs);
    proof {
        assert(out@ =~= spec_show_user_regs_bytes(*r));
    }
    out
}

/// The register dump as byte labels: `rax`, `rbx` and so on, each followed
/// by a hex field, five lines of four, then the instruction pointer and
/// flags, then the selectors.
pub open spec fn spec_show_user_regs_bytes(r: UserRegs) -> Seq<u8> {
    seq![114u8, 97u8, 120u8, 32u8].add(hex_field16(r.rax)).add(
        seq![32u8, 114u8, 98u8, 120u8, 32u8],
    ).add(hex_field16(r.rbx)).add(seq![32u8, 114u8, 99u8, 120u8, 32u8]).add(
        hex_field16(r.rcx),
    ).add(seq![32u8, 114u8, 100u8, 120u8, 32u8]).add(hex_field16(r.rdx)).add(
        seq![10u8, 114u8, 115u8, 105u8, 32u8],
    ).add(hex_field16(r.rsi)).add(seq![32u8, 114u8, 100u8, 105u8, 32u8]).add(
        hex_field16(r.rdi),
    ).add(seq![32u8, 114u8, 98u8, 112u8, 32u8]).add(hex_field16(r.rbp)).add(
        seq![32u8, 114u8, 115u8, 112u8, 32u8],
    ).add(hex_field16(r.rsp)).add(seq![10u8, 32u8, 114u8, 56u8, 32u8]).add(hex_field16(r.r8)).add(
        seq![32u8, 32u8, 114u8, 57u8, 32u8, 32u8],
    ).add(hex_field16(r.r9)).add(seq![32u8, 114u8, 49u8, 48u8, 32u8]).add(hex_field16(r.r10)).add(
        seq![32u8, 114u8, 49u8, 49u8, 32u8],
    ).add(hex_field16(r.r11)).add(seq![10u8, 114u8, 49u8, 50u8, 32u8]).add(hex_field16(r.r12)).add(
        seq![32u8, 114u8, 49u8, 51u8, 32u8],
    ).add(hex_field16(r.r13)).add(seq![32u8, 114u8, 49u8, 52u8, 32u8]).add(hex_field16(r.r14)).add(
        seq![32u8, 114u8, 49u8, 53u8, 32u8],
    ).add(hex_field16(r.r15)).add(seq![10u8, 114u8, 105u8, 112u8, 32u8]).add(
        hex_field16(r.rip),
    ).add(seq![32u8, 101u8, 102u8, 108u8, 97u8, 103u8, 115u8, 32u8]).add(
        hex_field16(r.eflags),
    ).add(seq![10u8, 99u8, 115u8, 32u8]).add(digits_of(r.cs as nat, 16)).add(
        seq![32u8, 115u8, 115u8, 32u8],
    ).add(digits_of(r.ss as nat, 16)).add(seq![32u8, 100u8, 115u8, 32u8]).add(
        digits_of(r.ds as nat, 16),
    ).add(seq![32u8, 101u8, 115u8, 32u8]).add(digits_of(r.es as nat, 16)).add(
        seq![10u8, 102u8, 115u8, 32u8],
    ).add(digits_of(r.fs as nat, 16)).add(seq![32u8, 103u8, 115u8, 32u8]).add(
        digits_of(r.gs as nat, 16),
    )
}

/// One line of the stack window: the slot address in a twelve-column
/// field, a colon and blank, the word in a sixteen-column field, and a
/// newline; the line of the stack pointer itself is marked with ` => `,
/// every other line is indented four blanks.
pub open spec fn spec_stack_line(addr: u64, word: u64, is_sp: bool) -> Seq<u8> {
    (if is_sp {
        seq![32u8, 61u8, 62u8, 32u8]
    } else {
        seq![32u8, 32u8, 32u8, 32u8]
    }).add(hex_field12(addr)).add(seq![58u8, 32u8]).add(hex_field16(word)).push(10u8)
}

/// The stack window, line by line.
pub open spec fn spec_show_stackframe(words: Seq<(u64, u64)>, rsp: u64) -> Seq<u8>
    decreases words.len(),
{
    if words.len() == 0 {
        Seq::empty()
    } else {
        spec_stack_line(words[0].0, words[0].1, words[0].0 == rsp) + spec_show_stackframe(
            words.drop_first(),
            rsp,
        )
    }
}

/// Render the stack window read around the stack pointer: one line per
/// word, the stack pointer's own line marked.
pub fn show_stackframe(words: &Vec<(u64, u64)>, rsp: u64) -> (out: Vec<u8>)
    ensures
        out@ == spec_show_stackframe(words@, rsp),
{
    let mut out: Vec<u8> = Vec::new();
    let mut k: usize = 0;
    proof {
        assert(words@.skip(0) =~= words@);
        assert(Seq::<u8>::empty() + spec_show_stackframe(words@, rsp) =~= spec_show_stackframe(
            words@,
            rsp,
        ));
    }
    while k < words.len()
        invariant
            k <= words@.len(),
            spec_show_stackframe(words@, rsp) == out@ + spec_show_stackframe(
                words@.skip(k as int),
                rsp,
            ),
        decreases words@.len() - k,
    {
        let ghost pre = out@;
        let (addr, word) = words[k];
        if addr == rsp {
            let marker: [u8; 4] = [32, 61, 62, 32];
            push_all(&mut out, marker.as_slice());
        } else {
            let marker: [u8; 4] = [32, 32, 32, 32];
            push_all(&mut out, marker.as_slice());
        }
        push_hex_field(&mut out, addr, 12);
        let sep: [u8; 2] = [58, 32];
        push_all(&mut out, sep.as_slice());
        push_hex_field(&mut out, word, 16);
        out.push(10);
        proof {
            let tail = words@.skip(k as int);
            assert(tail[0] == words@[k as int]);
            assert(tail.drop_first() =~= words@.skip(k as int + 1));
            assert(out@ =~= pre + spec_stack_line(addr, word, addr == rsp));
            assert(spec_show_stackframe(tail, rsp) == spec_stack_line(addr, word, addr == rsp)
                + spec_show_stackframe(words@.skip(k as int + 1), rsp));
            assert(pre + (spec_stack_line(addr, word, addr == rsp) + spec_show_stackframe(
                words@.skip(k as int + 1),
                rsp,
            )) =~= (pre + spec_stack_line(addr, word, addr == rsp)) + spec_show_stackframe(
                words@.skip(k as int + 1),
                rsp,
            ));
        }
        k = k + 1;
    }
    proof {
        assert(words@.skip(words@.len() as int) =~= Seq::<(u64, u64)>::empty());
        assert(out@ + Seq::<u8>::empty() =~= out@);
    }
    out
}

} // verus!
