//! Extended-jump stub pages.
//!
//! A patched syscall site is rewritten into a 5-byte `call rel32`, so its
//! target must lie within ±2 GiB of the site.  The targets are indirect-jump
//! thunks collected in per-process executable pages: one thunk per hook, at
//! `base + hook_index * EXTENDED_JUMP_SIZE`, each
//!
//! ```text
//!     call *0(%rip)
//!     .quad trampoline_entry
//!     ret
//! ```
//!
//! so only the embedded quad differs between hooks.  This module holds the
//! page descriptors, the ±2 GiB placement rules, and the byte generators
//! for the thunks and for the site patch itself.

use vstd::prelude::*;
use crate::consts::{PROT_EXEC, PROT_READ, TWO_GB};
use crate::proc::ProcMapsEntry;

verus! {

/// Bytes of one extended-jump thunk: a six-byte indirect call through the
/// quad that follows it, the quad, a return, and one byte of padding.
pub const EXTENDED_JUMP_SIZE: u64 = 16;

/// Pages allocated per stub-page mapping.
pub const EXTENDED_JUMP_PAGES: u64 = 1;

/// Byte size of one extended-jump thunk.
pub fn extended_jump_size() -> (r: u64)
    ensures
        r == EXTENDED_JUMP_SIZE,
{
    EXTENDED_JUMP_SIZE
}

/// Pages allocated per stub-page mapping.
pub fn extended_jump_pages() -> (r: u64)
    ensures
        r == EXTENDED_JUMP_PAGES,
{
    EXTENDED_JUMP_PAGES
}

/// One allocated stub page in a tracee.
#[derive(Clone, Copy, PartialEq, Eq, Structural)]
pub struct SyscallStubPage {
    /// Base address of the mapping.
    pub address: u64,
    /// Size of the mapping in bytes.
    pub size: u64,
    /// Bytes of thunks actually written into the page.
    pub allocated: u64,
    /// Protection the page was left with.
    pub prot: i32,
}

/// A well-formed stub page: one extended-jump mapping, executable and
/// readable, whose extent fits the address space.
pub open spec fn stub_page_wf(p: SyscallStubPage) -> bool {
    &&& p.size == EXTENDED_JUMP_PAGES * 0x1000
    &&& p.address + p.size <= u64::MAX
    &&& p.prot == PROT_READ | PROT_EXEC
    &&& p.allocated <= p.size
}

/// The margin kept under the full ±2 GiB reach, so that a call written a
/// few bytes before the site's `rip` still reaches every thunk in the
/// page.
pub const REACH_MARGIN: u64 = 0x10;

/// The placement rule: a page at `address` serves a site at `rip` when the
/// whole page lies within the reach of a 32-bit displacement from the
/// patched call, on either side, with a small margin for the call's own
/// width.
pub open spec fn stub_page_reaches(address: u64, size: u64, rip: u64) -> bool {
    if address + size <= rip {
        rip - address <= TWO_GB - REACH_MARGIN
    } else if address >= rip {
        address + EXTENDED_JUMP_PAGES * 0x1000 - rip <= TWO_GB - REACH_MARGIN
    } else {
        false
    }
}

/// Some registered stub page serves `rip`.
pub open spec fn stub_reachable(pages: Seq<SyscallStubPage>, rip: u64) -> bool {
    exists|k: int|
        0 <= k < pages.len() && stub_page_reaches(
            (#[trigger] pages[k]).address,
            pages[k].size,
            rip,
        ) && pages[k].prot == PROT_READ | PROT_EXEC
}

/// Find a registered stub page that serves `rip`: the first page within
/// reach, by registration order.  `None` exactly when no page reaches.
pub fn find_stub_page(pages: &Vec<SyscallStubPage>, rip: u64) -> (r: Option<u64>)
    requires
        forall|k: int| 0 <= k < pages@.len() ==> stub_page_wf(#[trigger] pages@[k]),
    ensures
        match r {
            Option::Some(a) => exists|k: int|
                0 <= k < pages@.len() && (#[trigger] pages@[k]).address == a && stub_page_reaches(
                    pages@[k].address,
                    pages@[k].size,
                    rip,
                ),
            Option::None => forall|k: int|
                0 <= k < pages@.len() ==> !stub_page_reaches(
                    (#[trigger] pages@[k]).address,
                    pages@[k].size,
                    rip,
                ),
        },
{
    let mut i: usize = 0;
    while i < pages.len()
        invariant
            i <= pages@.len(),
            forall|k: int| 0 <= k < pages@.len() ==> stub_page_wf(#[trigger] pages@[k]),
            forall|k: int|
                0 <= k < i ==> !stub_page_reaches(
                    (#[trigger] pages@[k]).address,
                    pages@[k].size,
                    rip,
                ),
        decreases pages@.len() - i,
    {
        let p = pages[i];
        let hit: bool = if p.address + p.size <= rip {
            rip - p.address <= 0x8000_0000 - REACH_MARGIN
        } else if p.address >= rip {
            p.address - rip <= 0x8000_0000 - REACH_MARGIN - EXTENDED_JUMP_PAGES * 0x1000
        } else {
            false
        };
        if hit {
            return Option::Some(p.address);
        }
        i = i + 1;
    }
    Option::None
}

/// The interval `[a, a + asz)` does not meet the extent of any map entry.
pub open spec fn slot_free(maps: Seq<crate::proc::MapEntryV>, a: u64, asz: u64) -> bool {
    forall|k: int|
        0 <= k < maps.len() ==> (a + asz <= (#[trigger] maps[k]).base || maps[k].base
            + maps[k].size <= a)
}

/// A usable slot for a stub page serving `rip`: page-aligned, within the
/// address space, within displacement reach, and free of every mapping.
pub open spec fn slot_ok(maps: Seq<crate::proc::MapEntryV>, a: u64, asz: u64, rip: u64) -> bool {
    &&& a % 0x1000 == 0
    &&& a + asz <= u64::MAX
    &&& stub_page_reaches(a, asz, rip)
    &&& slot_free(maps, a, asz)
}

/// The slot candidate taken from map entry `k`: the entry's end, rounded up
/// to a page boundary.
pub open spec fn slot_candidate(maps: Seq<crate::proc::MapEntryV>, k: int) -> int {
    ((maps[k].base + maps[k].size + 0xfff) / 0x1000) * 0x1000
}

/// The candidate from entry `k` stays within the address space for a slot
/// of `asz` bytes.
pub open spec fn candidate_viable(maps: Seq<crate::proc::MapEntryV>, k: int, asz: u64) -> bool {
    &&& maps[k].base + maps[k].size + 0xfff <= u64::MAX
    &&& slot_candidate(maps, k) + asz <= u64::MAX
}

/// No page-rounded end of any mapping yields a usable slot of `asz`
/// bytes within reach of `rip`.
pub open spec fn no_candidate_slot(maps: Seq<crate::proc::MapEntryV>, asz: u64, rip: u64) -> bool {
    forall|k: int|
        0 <= k < maps.len() ==> !(#[trigger] candidate_viable(maps, k, asz) && slot_ok(
            maps,
            slot_candidate(maps, k) as u64,
            asz,
            rip,
        ))
}

/// Search the memory map for a free page-aligned slot of `size` bytes
/// within ±2 GiB of `rip`.  The candidates are the page-rounded ends of the
/// existing mappings; the first that is free and within reach wins.  `None`
/// exactly when no candidate works — the patch is then refused rather than
/// emitting an out-of-range branch.
pub fn search_stub_page(maps: &Vec<ProcMapsEntry>, rip: u64, size: u64) -> (r: Option<u64>)
    requires
        size > 0,
    ensures
        ({
            let mv = maps@.map_values(|e: ProcMapsEntry| e@);
            match r {
                Option::Some(a) => slot_ok(mv, a, size, rip),
                Option::None => no_candidate_slot(mv, size, rip),
            }
        }),
{
    let ghost mv = maps@.map_values(|e: ProcMapsEntry| e@);
    let mut i: usize = 0;
    while i < maps.len()
        invariant
            i <= maps@.len(),
            mv == maps@.map_values(|e: ProcMapsEntry| e@),
            size > 0,
            forall|k: int|
                0 <= k < i ==> !(#[trigger] candidate_viable(mv, k, size) && slot_ok(
                    mv,
                    slot_candidate(mv, k) as u64,
                    size,
                    rip,
                )),
        decreases maps@.len() - i,
    {
        let base = maps[i].base();
        let msize = maps[i].size_bytes();
        proof {
            assert(mv[i as int] == maps@[i as int]@);
        }
        if msize <= u64::MAX - base && base + msize <= u64::MAX - 0xfff {
            let end = base + msize;
            let cand: u64 = ((end + 0xfff) / 0x1000) * 0x1000;
            proof {
                assert(((end + 0xfff) / 0x1000) * 0x1000 <= end + 0xfff) by (nonlinear_arith);
                assert(cand == slot_candidate(mv, i as int));
                assert((((end + 0xfff) / 0x1000) * 0x1000) % 0x1000 == 0) by (nonlinear_arith);
            }
            if cand <= u64::MAX - size {
                let reaches: bool = if cand + size <= rip {
                    rip - cand <= 0x8000_0000 - REACH_MARGIN
                } else if cand >= rip {
                    cand - rip <= 0x8000_0000 - REACH_MARGIN - EXTENDED_JUMP_PAGES * 0x1000
                } else {
                    false
                };
                if reaches {
                    // check the candidate against every mapping
                    let mut free = true;
                    let mut j: usize = 0;
                    while j < maps.len()
                        invariant
                            j <= maps@.len(),
                            mv == maps@.map_values(|e: ProcMapsEntry| e@),
                            cand + size <= u64::MAX,
                            free == (forall|m: int|
                                0 <= m < j ==> (cand + size <= (#[trigger] mv[m]).base
                                    || mv[m].base + mv[m].size <= cand)),
                        decreases maps@.len() - j,
                    {
                        let eb = maps[j].base();
                        let ghost mj = mv[j as int];
                        proof {
                            assert(mv[j as int] == maps@[j as int]@);
                        }
                        let esz = maps[j].size_bytes();
                        let esz_fits = esz <= u64::MAX - eb;
                        let overlap: bool = if esz_fits {
                            !(cand + size <= eb || eb + esz <= cand)
                        } else {
                            // an extent past the end of the address space
                            // cannot leave the candidate free
                            !(cand + size <= eb)
                        };
                        if overlap {
                            free = false;
                        }
                        j = j + 1;
                    }
                    if free {
                        return Option::Some(cand);
                    }
                }
            }
        }
        i = i + 1;
    }
    Option::None
}

// ---------------------------------------------------------------------------
// Byte generation
// ---------------------------------------------------------------------------

/// Byte `k` of the little-endian encoding of `x`.
pub open spec fn le_byte(x: u64, k: int) -> u8 {
    ((x >> ((8 * k) as u64)) & 0xff) as u8
}

/// The bytes of one extended-jump thunk for a trampoline entry address:
/// `call *0(%rip)`, the entry quad, `ret`, one `nop` of padding.
pub open spec fn stub_bytes(entry: u64) -> Seq<u8> {
    seq![0xffu8, 0x15u8, 0u8, 0u8, 0u8, 0u8] + Seq::new(8, |i: int| le_byte(entry, i)) + seq![
        0xc3u8,
        0x90u8,
    ]
}

/// Emit one extended-jump thunk for the trampoline entry at `entry`.
pub fn extended_jump_bytes(entry: u64) -> (r: Vec<u8>)
    ensures
        r@ == stub_bytes(entry),
        r@.len() == EXTENDED_JUMP_SIZE,
{
    let mut out: Vec<u8> = Vec::new();
    out.push(0xff);
    out.push(0x15);
    out.push(0);
    out.push(0);
    out.push(0);
    out.push(0);
    let mut k: usize = 0;
    while k < 8
        invariant
            k <= 8,
            out@.len() == 6 + k,
            out@ == seq![0xffu8, 0x15u8, 0u8, 0u8, 0u8, 0u8] + Seq::new(
                k as nat,
                |i: int| le_byte(entry, i),
            ),
        decreases 8 - k,
    {
        let b: u8 = ((entry >> ((8 * (k as u64)) as u64)) & 0xff) as u8;
        proof {
            assert(b == le_byte(entry, k as int));
        }
        out.push(b);
        proof {
            assert(out@ =~= seq![0xffu8, 0x15u8, 0u8, 0u8, 0u8, 0u8] + Seq::new(
                k as nat + 1,
                |i: int| le_byte(entry, i),
            ));
        }
        k = k + 1;
    }
    out.push(0xc3);
    out.push(0x90);
    proof {
        assert(out@ =~= stub_bytes(entry));
    }
    out
}

/// Emit the whole thunk table: one extended-jump thunk per hook, in catalog
/// order, each `EXTENDED_JUMP_SIZE` bytes, at offsets that
/// [`extended_jump_offset`] names.  The entry of hook `k` is the trampoline
/// load address plus its resolved symbol offset.
pub fn gen_extended_jump_stubs(offsets: &Vec<u64>, preload_address: u64) -> (r: Vec<u8>)
    requires
        forall|k: int| 0 <= k < offsets@.len() ==> preload_address + #[trigger] offsets@[k]
            <= u64::MAX,
    ensures
        r@.len() == offsets@.len() * EXTENDED_JUMP_SIZE,
        forall|k: int|
            0 <= k < offsets@.len() ==> r@.subrange(
                k * EXTENDED_JUMP_SIZE as int,
                (k + 1) * EXTENDED_JUMP_SIZE as int,
            ) =~= stub_bytes((preload_address + #[trigger] offsets@[k]) as u64),
{
    let mut out: Vec<u8> = Vec::new();
    let mut i: usize = 0;
    while i < offsets.len()
        invariant
            i <= offsets@.len(),
            forall|k: int| 0 <= k < offsets@.len() ==> preload_address + #[trigger] offsets@[k]
                <= u64::MAX,
            out@.len() == i * EXTENDED_JUMP_SIZE,
            forall|k: int|
                0 <= k < i ==> out@.subrange(
                    k * EXTENDED_JUMP_SIZE as int,
                    (k + 1) * EXTENDED_JUMP_SIZE as int,
                ) =~= stub_bytes((preload_address + #[trigger] offsets@[k]) as u64),
        decreases offsets@.len() - i,
    {
        let ghost pre = out@;
        let entry: u64 = preload_address + offsets[i];
        let stub = extended_jump_bytes(entry);
        let mut m: usize = 0;
        while m < stub.len()
            invariant
                m <= stub@.len(),
                out@ == pre + stub@.take(m as int),
            decreases stub@.len() - m,
        {
            out.push(stub[m]);
            proof {
                assert(pre + stub@.take(m as int + 1) =~= (pre + stub@.take(m as int)).push(
                    stub@[m as int],
                ));
            }
            m = m + 1;
        }
        proof {
            assert(stub@.take(stub@.len() as int) =~= stub@);
            assert forall|k: int|
                0 <= k < i + 1 implies out@.subrange(
                k * EXTENDED_JUMP_SIZE as int,
                (k + 1) * EXTENDED_JUMP_SIZE as int,
            ) =~= stub_bytes((preload_address + #[trigger] offsets@[k]) as u64) by {
                if k < i {
                    assert(out@.subrange(
                        k * EXTENDED_JUMP_SIZE as int,
                        (k + 1) * EXTENDED_JUMP_SIZE as int,
                    ) =~= pre.subrange(
                        k * EXTENDED_JUMP_SIZE as int,
                        (k + 1) * EXTENDED_JUMP_SIZE as int,
                    ));
                } else {
                    assert(out@.subrange(
                        k * EXTENDED_JUMP_SIZE as int,
                        (k + 1) * EXTENDED_JUMP_SIZE as int,
                    ) =~= stub@);
                }
            }
        }
        i = i + 1;
    }
    out
}

/// Offset of the thunk of hook `index` within its stub page.
pub fn extended_jump_offset(index: u64) -> (r: u64)
    requires
        index * EXTENDED_JUMP_SIZE < EXTENDED_JUMP_PAGES * 0x1000,
    ensures
        r == index * EXTENDED_JUMP_SIZE,
        r < EXTENDED_JUMP_PAGES * 0x1000,
{
    index * EXTENDED_JUMP_SIZE
}

// ---------------------------------------------------------------------------
// The site patch: a 5-byte call with a 32-bit displacement
// ---------------------------------------------------------------------------

/// Value of four little-endian bytes.
pub open spec fn le32_val(b: Seq<u8>) -> int {
    b[0] + 0x100 * b[1] + 0x10000 * b[2] + 0x1000000 * b[3]
}

/// A 32-bit value read back as a signed displacement.
pub open spec fn signed32(v: int) -> int {
    if v < 0x8000_0000 {
        v
    } else {
        v - 0x1_0000_0000
    }
}

/// Where a `call rel32` written at `site` lands: past the five instruction
/// bytes, displaced by the signed 32-bit immediate.
pub open spec fn decode_call_rel32(site: u64, bytes: Seq<u8>) -> int
    recommends
        bytes.len() >= 5,
{
    site + 5 + signed32(le32_val(bytes.subrange(1, 5)))
}

/// Emit the bytes written over a patched site: a 5-byte `call rel32` to
/// `target`, padded with `nop` to exactly the width of the `syscall`
/// instruction plus its matched tail — as wide as the original and no
/// wider.  The written call decodes back to `target`
/// ([`decode_call_rel32`]), so the branch is in range by construction.
#[verifier::rlimit(100)]
#[verifier::spinoff_prover]
pub fn patch_site_bytes(hook_len: usize, site: u64, target: u64) -> (r: Vec<u8>)
    requires
        3 <= hook_len <= 16,
        site + 5 <= u64::MAX,
        // the displacement fits a signed 32-bit immediate
        target <= site + 5 + 0x7fff_ffff,
        site + 5 <= target + 0x8000_0000,
    ensures
        r@.len() == hook_len + 2,
        r@[0] == 0xe8,
        forall|k: int| 5 <= k < r@.len() ==> r@[k] == 0x90,
        decode_call_rel32(site, r@) == target,
{
    let s5: u64 = site + 5;
    let rel: u64 = target.wrapping_sub(s5);
    let b0: u8 = (rel & 0xff) as u8;
    let b1: u8 = ((rel >> 8) & 0xff) as u8;
    let b2: u8 = ((rel >> 16) & 0xff) as u8;
    let b3: u8 = ((rel >> 24) & 0xff) as u8;
    let mut out: Vec<u8> = Vec::new();
    out.push(0xe8);
    out.push(b0);
    out.push(b1);
    out.push(b2);
    out.push(b3);
    let mut k: usize = 5;
    while k < hook_len + 2
        invariant
            hook_len <= 16,
            5 <= k <= hook_len + 2,
            out@.len() == k,
            out@[0] == 0xe8,
            out@[1] == b0 && out@[2] == b1 && out@[3] == b2 && out@[4] == b3,
            forall|m: int| 5 <= m < k ==> out@[m] == 0x90,
        decreases hook_len + 2 - k,
    {
        out.push(0x90);
        k = k + 1;
    }
    proof {
        let lv = le32_val(out@.subrange(1, 5));
        assert(out@.subrange(1, 5) =~= seq![b0, b1, b2, b3]);
        assert(rel & 0xff <= 0xff && (rel >> 8) & 0xff <= 0xff && (rel >> 16) & 0xff <= 0xff && (
        rel >> 24) & 0xff <= 0xff) by (bit_vector);
        assert(b0 as u64 == rel & 0xff);
        assert(b1 as u64 == (rel >> 8) & 0xff);
        assert(b2 as u64 == (rel >> 16) & 0xff);
        assert(b3 as u64 == (rel >> 24) & 0xff);
        assert((rel & 0xff) + 0x100 * ((rel >> 8) & 0xff) + 0x10000 * ((rel >> 16) & 0xff)
            + 0x1000000 * ((rel >> 24) & 0xff) == rel % 0x1_0000_0000) by (bit_vector);
        assert(lv == rel % 0x1_0000_0000);
        if target >= s5 {
            assert(rel == target - s5);
            assert(rel <= 0x7fff_ffff);
            assert(rel % 0x1_0000_0000 == rel) by (nonlinear_arith)
                requires
                    rel <= 0x7fff_ffff,
            ;
            assert(signed32(lv) == rel);
        } else {
            let d = s5 - target;
            assert(1 <= d <= 0x8000_0000);
            assert(rel == target - s5 + 0x1_0000_0000_0000_0000);
            assert((0x1_0000_0000_0000_0000 - d) % 0x1_0000_0000 == 0x1_0000_0000 - d)
                by (nonlinear_arith)
                requires
                    1 <= d <= 0x8000_0000,
            ;
            assert(lv == 0x1_0000_0000 - d);
            assert(signed32(lv) == -d);
        }
    }
    out
}

} // verus!
