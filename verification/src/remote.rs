//! Word-granular remote-memory arithmetic.
//!
//! Reads and writes of at most one machine word go through a single
//! word-sized transfer.  A short write must preserve the unaffected bytes:
//! the old word is read, its lower `k` bytes are cleared, and the new bytes
//! are laid in little-endian order — the upper `8 − k` bytes keep their old
//! value.  The transfers themselves are I/O and live in the unverified
//! shell; the functions here compute the words and bytes exchanged, and
//! their contracts pin down every byte.

use vstd::prelude::*;
use crate::stubs::le_byte;

verus! {

/// The lower `size` bytes of a word, in little-endian order — what a short
/// read returns.
pub fn word_bytes(x: u64, size: usize) -> (r: Vec<u8>)
    requires
        size <= 8,
    ensures
        r@.len() == size,
        forall|i: int| 0 <= i < size ==> r@[i] == le_byte(x, i),
{
    let mut out: Vec<u8> = Vec::new();
    let mut k: usize = 0;
    while k < size
        invariant
            k <= size <= 8,
            out@.len() == k,
            forall|i: int| 0 <= i < k ==> out@[i] == le_byte(x, i),
        decreases size - k,
    {
        let b: u8 = ((x >> ((8 * (k as u64)) as u64)) & 0xff) as u8;
        proof {
            assert(b == le_byte(x, k as int));
        }
        out.push(b);
        k = k + 1;
    }
    out
}

/// The word a short write stores: the new bytes in the lower `size`
/// positions, little-endian, and the old word's bytes above them.  This is
/// the read-modify-write mask rule: for a write of `k` bytes, keep the
/// upper `8 − k` bytes of the original word.
pub fn poke_word_value(old_word: u64, bytes: &[u8]) -> (r: u64)
    requires
        1 <= bytes@.len() <= 8,
    ensures
        forall|i: int| 0 <= i < bytes@.len() ==> le_byte(r, i) == bytes@[i],
        forall|i: int| bytes@.len() <= i < 8 ==> le_byte(r, i) == le_byte(old_word, i),
{
    let size = bytes.len();
    let mask: u64 = if size == 8 {
        0
    } else {
        u64::MAX << ((8 * (size as u64)) as u64)
    };
    let mut val: u64 = old_word & mask;
    proof {
        let s = size as u64;
        let m = mask;
        let ow = old_word;
        assert forall|i: int| 0 <= i < 8 implies le_byte(val, i) == (if i < size {
            0u8
        } else {
            le_byte(ow, i)
        }) by {
            let iu = i as u64;
            if size == 8 {
                assert(((ow & 0) >> ((8 * iu) as u64)) & 0xff == 0) by (bit_vector);
            } else {
                if i < size {
                    assert(((ow & (u64::MAX << ((8 * s) as u64))) >> ((8 * iu) as u64)) & 0xff == 0)
                        by (bit_vector)
                        requires
                            iu < s < 8,
                    ;
                } else {
                    assert(((ow & (u64::MAX << ((8 * s) as u64))) >> ((8 * iu) as u64)) & 0xff == (
                    ow >> ((8 * iu) as u64)) & 0xff) by (bit_vector)
                        requires
                            s <= iu < 8,
                            1 <= s < 8,
                    ;
                }
            }
        }
    }
    let mut k: usize = 0;
    while k < size
        invariant
            k <= size <= 8,
            size == bytes@.len(),
            forall|i: int| 0 <= i < k ==> le_byte(val, i) == bytes@[i],
            forall|i: int| k <= i < size ==> le_byte(val, i) == 0,
            forall|i: int| size <= i < 8 ==> le_byte(val, i) == le_byte(old_word, i),
        decreases size - k,
    {
        let b = bytes[k];
        let ghost vpre = val;
        val = val | ((b as u64) << ((8 * (k as u64)) as u64));
        proof {
            let ku = k as u64;
            let bb = b as u64;
            assert(le_byte(vpre, k as int) == 0);
            assert((vpre >> ((8 * ku) as u64)) & 0xff <= 0xff) by (bit_vector);
            assert((vpre >> ((8 * ku) as u64)) & 0xff == 0);
            assert forall|i: int| 0 <= i < 8 implies le_byte(val, i) == (if i == k as int {
                b
            } else {
                le_byte(vpre, i)
            }) by {
                let iu = i as u64;
                if i == k as int {
                    assert(((vpre | (bb << ((8 * ku) as u64))) >> ((8 * ku) as u64)) & 0xff == bb)
                        by (bit_vector)
                        requires
                            ku < 8,
                            bb <= 0xff,
                            (vpre >> ((8 * ku) as u64)) & 0xff == 0,
                    ;
                } else {
                    assert(((vpre | (bb << ((8 * ku) as u64))) >> ((8 * iu) as u64)) & 0xff == (
                    vpre >> ((8 * iu) as u64)) & 0xff) by (bit_vector)
                        requires
                            ku < 8,
                            iu < 8,
                            iu != ku,
                            bb <= 0xff,
                    ;
                }
            }
        }
        k = k + 1;
    }
    val
}

} // verus!
