//! The `/proc/<pid>/maps` codec and the `/proc/<pid>/status` state reader.
//!
//! A map line has the form `base-end prot offset major:minor inode [path]`.
//! The parser is tolerant of repeated separating blanks, of trailing
//! whitespace and of a missing path; a line that does not match the grammar is
//! rejected.  The formatter emits the canonical form of an entry, and
//! re-parsing a formatted entry yields the entry back (see
//! [`lemma_entry_round_trip`]).  Reading the files themselves is I/O and is
//! done by the unverified shell, which hands the text in.

use vstd::prelude::*;
use vstd::slice::{slice_subrange, slice_to_vec};

verus! {

// ---------------------------------------------------------------------------
// Byte classes and numerals
// ---------------------------------------------------------------------------

/// Blank bytes accepted between fields: space and tab.
pub open spec fn is_blank_b(b: u8) -> bool {
    b == 32 || b == 9
}

/// ASCII decimal digit.
pub open spec fn is_digit_b(b: u8) -> bool {
    48 <= b && b <= 57
}

/// ASCII hexadecimal digit, either case.
pub open spec fn is_hex_b(b: u8) -> bool {
    is_digit_b(b) || (97 <= b && b <= 102) || (65 <= b && b <= 70)
}

/// Numeric value of a digit byte.
pub open spec fn digit_val_b(b: u8) -> nat {
    if is_digit_b(b) {
        (b - 48) as nat
    } else if 97 <= b && b <= 102 {
        (b - 87) as nat
    } else if 65 <= b && b <= 70 {
        (b - 55) as nat
    } else {
        0
    }
}

/// Lower-case digit byte of a value below the radix (10 or 16).
pub open spec fn digit_char(d: nat) -> u8 {
    if d < 10 {
        (48 + d) as u8
    } else {
        (87 + d) as u8
    }
}

/// The digit string of `n` in the given radix, most significant first, with
/// no leading zeros (`0` itself is the single byte `"0"`).
pub open spec fn digits_of(n: nat, radix: nat) -> Seq<u8>
    recommends
        radix == 10 || radix == 16,
    decreases n,
    via digits_of_dec
{
    if radix <= 1 {
        Seq::empty()
    } else if n < radix {
        seq![digit_char(n)]
    } else {
        digits_of(n / radix, radix) + seq![digit_char(n % radix)]
    }
}

#[via_fn]
proof fn digits_of_dec(n: nat, radix: nat) {
    if radix > 1 && n >= radix {
        assert(n / radix < n) by (nonlinear_arith)
            requires
                radix >= 2,
                n >= radix,
        ;
    }
}

/// A run of `n` zero digits.
pub open spec fn zero_digits(n: nat) -> Seq<u8> {
    Seq::new(n, |i: int| 48u8)
}

/// `digits_of`, left-padded with zero digits to at least `width` bytes.
pub open spec fn digits_of_pad(n: nat, radix: nat, width: nat) -> Seq<u8> {
    let ds = digits_of(n, radix);
    if ds.len() < width {
        zero_digits((width - ds.len()) as nat) + ds
    } else {
        ds
    }
}

/// Value of a digit string, most significant first.
pub open spec fn num_of_digits(digs: Seq<u8>, radix: nat) -> nat
    decreases digs.len(),
{
    if digs.len() == 0 {
        0
    } else {
        num_of_digits(digs.drop_last(), radix) * radix + digit_val_b(digs.last())
    }
}

// ---------------------------------------------------------------------------
// Prefix runs
// ---------------------------------------------------------------------------

/// Length of the leading run of blank bytes.
pub open spec fn blank_prefix_len(s: Seq<u8>) -> nat
    decreases s.len(),
{
    if s.len() > 0 && is_blank_b(s[0]) {
        (1 + blank_prefix_len(s.drop_first())) as nat
    } else {
        0
    }
}

/// Length of the leading run of hexadecimal digit bytes.
pub open spec fn hex_prefix_len(s: Seq<u8>) -> nat
    decreases s.len(),
{
    if s.len() > 0 && is_hex_b(s[0]) {
        (1 + hex_prefix_len(s.drop_first())) as nat
    } else {
        0
    }
}

/// Length of the leading run of decimal digit bytes.
pub open spec fn dec_prefix_len(s: Seq<u8>) -> nat
    decreases s.len(),
{
    if s.len() > 0 && is_digit_b(s[0]) {
        (1 + dec_prefix_len(s.drop_first())) as nat
    } else {
        0
    }
}

/// What remains of `s` after its leading blanks.
pub open spec fn sp_blanks(s: Seq<u8>) -> Seq<u8> {
    s.skip(blank_prefix_len(s) as int)
}

/// Specification of a hexadecimal field: `None` when no digit leads `s` or
/// the value exceeds `u64`; otherwise the value and the rest of `s`.
pub open spec fn sp_hex_u64(s: Seq<u8>) -> Option<(u64, Seq<u8>)> {
    let l = hex_prefix_len(s);
    let v = num_of_digits(s.take(l as int), 16);
    if l == 0 || v > u64::MAX {
        None
    } else {
        Some((v as u64, s.skip(l as int)))
    }
}

/// Specification of a decimal field, as [`sp_hex_u64`].
pub open spec fn sp_dec_u64(s: Seq<u8>) -> Option<(u64, Seq<u8>)> {
    let l = dec_prefix_len(s);
    let v = num_of_digits(s.take(l as int), 10);
    if l == 0 || v > u64::MAX {
        None
    } else {
        Some((v as u64, s.skip(l as int)))
    }
}

// ---------------------------------------------------------------------------
// Exec helpers over byte slices
// ---------------------------------------------------------------------------

proof fn lemma_skip_skip(s: Seq<u8>, a: int, b: int)
    requires
        0 <= a,
        0 <= b,
        a + b <= s.len(),
    ensures
        s.skip(a).skip(b) == s.skip(a + b),
{
    assert(s.skip(a).skip(b) =~= s.skip(a + b));
}

/// Index just past the blanks that start at `i`.
pub fn skip_blanks(line: &[u8], i: usize) -> (r: usize)
    requires
        i <= line@.len(),
    ensures
        i <= r <= line@.len(),
        r - i == blank_prefix_len(line@.skip(i as int)),
        line@.skip(r as int) == sp_blanks(line@.skip(i as int)),
{
    let ghost s0 = line@.skip(i as int);
    let mut j: usize = i;
    while j < line.len() && (line[j] == 32 || line[j] == 9)
        invariant
            i <= j <= line@.len(),
            blank_prefix_len(line@.skip(i as int)) == j - i + blank_prefix_len(
                line@.skip(j as int),
            ),
        decreases line@.len() - j,
    {
        proof {
            let sj = line@.skip(j as int);
            assert(sj[0] == line@[j as int]);
            assert(sj.drop_first() =~= line@.skip(j as int + 1));
        }
        j = j + 1;
    }
    proof {
        let sj = line@.skip(j as int);
        if j < line@.len() {
            assert(sj[0] == line@[j as int]);
        }
        assert(blank_prefix_len(sj) == 0);
        lemma_skip_skip(line@, i as int, (j - i) as int);
    }
    j
}

/// Parse a run of digits starting at `i` in the given radix (10 or 16),
/// returning the value and the index just past the run, or `None` when the
/// run is empty or the value does not fit in `u64`.  Matches [`sp_hex_u64`]
/// and [`sp_dec_u64`] on the suffix of `line` at `i`.
fn parse_num_field(line: &[u8], i: usize, radix: u64) -> (r: Option<(u64, usize)>)
    requires
        i <= line@.len(),
        radix == 10 || radix == 16,
    ensures
        ({
            let sp = if radix == 16 {
                sp_hex_u64(line@.skip(i as int))
            } else {
                sp_dec_u64(line@.skip(i as int))
            };
            match (r, sp) {
                (Some((v, j)), Some((sv, rest))) => {
                    &&& v == sv
                    &&& i <= j <= line@.len()
                    &&& line@.skip(j as int) == rest
                    &&& j - i == if radix == 16 {
                        hex_prefix_len(line@.skip(i as int))
                    } else {
                        dec_prefix_len(line@.skip(i as int))
                    }
                },
                (None, None) => true,
                _ => false,
            }
        }),
{
    let ghost s0 = line@.skip(i as int);
    // length of the digit run
    let mut j: usize = i;
    while j < line.len() && digit_in_radix(line[j], radix)
        invariant
            i <= j <= line@.len(),
            radix == 10 || radix == 16,
            radix == 16 ==> hex_prefix_len(line@.skip(i as int)) == j - i + hex_prefix_len(
                line@.skip(j as int),
            ),
            radix == 10 ==> dec_prefix_len(line@.skip(i as int)) == j - i + dec_prefix_len(
                line@.skip(j as int),
            ),
            forall|m: int|
                i <= m < j ==> (if radix == 16 {
                    is_hex_b(#[trigger] line@[m])
                } else {
                    is_digit_b(line@[m])
                }),
        decreases line@.len() - j,
    {
        proof {
            let sj = line@.skip(j as int);
            assert(sj[0] == line@[j as int]);
            assert(sj.drop_first() =~= line@.skip(j as int + 1));
        }
        j = j + 1;
    }
    proof {
        let sj = line@.skip(j as int);
        if j < line@.len() {
            assert(sj[0] == line@[j as int]);
        }
        if radix == 16 {
            assert(hex_prefix_len(sj) == 0);
        } else {
            assert(dec_prefix_len(sj) == 0);
        }
    }
    let ghost runlen: int = if radix == 16 {
        hex_prefix_len(s0) as int
    } else {
        dec_prefix_len(s0) as int
    };
    proof {
        assert(runlen == j - i);
    }
    if j == i {
        return None;
    }
    // accumulate the value, watching for overflow
    let mut acc: u64 = 0;
    let mut k: usize = i;
    while k < j
        invariant
            i <= k <= j <= line@.len(),
            radix == 10 || radix == 16,
            runlen == j - i,
            runlen == if radix == 16 {
                hex_prefix_len(s0) as int
            } else {
                dec_prefix_len(s0) as int
            },
            s0 == line@.skip(i as int),
            forall|m: int|
                i <= m < j ==> (if radix == 16 {
                    is_hex_b(#[trigger] line@[m])
                } else {
                    is_digit_b(line@[m])
                }),
            acc == num_of_digits(line@.subrange(i as int, k as int), radix as nat),
        decreases j - k,
    {
        let b = line[k];
        let d: u64 = digit_value(b, radix);
        if acc > (u64::MAX - d) / radix {
            // the full run overflows u64: the spec value only grows with
            // more digits, so the field is rejected
            proof {
                lemma_num_prefix_monotonic(line@, i as int, k as int + 1, j as int, radix as nat);
                assert(line@.subrange(i as int, k as int + 1).drop_last() =~= line@.subrange(
                    i as int,
                    k as int,
                ));
                assert(line@.subrange(i as int, k as int + 1).last() == line@[k as int]);
                assert(num_of_digits(line@.subrange(i as int, k as int + 1), radix as nat) == acc
                    * radix + d);
                assert(acc * radix + d > u64::MAX) by (nonlinear_arith)
                    requires
                        acc > (u64::MAX - d) / (radix as int),
                        radix == 10 || radix == 16,
                        d <= 15,
                ;
                assert(line@.subrange(i as int, j as int) =~= s0.take(runlen));
            }
            return None;
        }
        proof {
            assert(acc * radix + d <= u64::MAX) by (nonlinear_arith)
                requires
                    acc <= (u64::MAX - d) / (radix as int),
                    radix == 10 || radix == 16,
                    d <= 15,
            ;
            assert(line@.subrange(i as int, k as int + 1).drop_last() =~= line@.subrange(
                i as int,
                k as int,
            ));
            assert(line@.subrange(i as int, k as int + 1).last() == line@[k as int]);
        }
        acc = acc * radix + d;
        k = k + 1;
    }
    proof {
        assert(line@.subrange(i as int, j as int) =~= s0.take(runlen));
        lemma_skip_skip(line@, i as int, runlen);
    }
    Some((acc, j))
}

/// Exec test for membership of the digit class of the radix.
fn digit_in_radix(b: u8, radix: u64) -> (r: bool)
    requires
        radix == 10 || radix == 16,
    ensures
        radix == 16 ==> r == is_hex_b(b),
        radix == 10 ==> r == is_digit_b(b),
{
    if radix == 16 {
        is_hex_byte(b)
    } else {
        is_digit_byte(b)
    }
}

/// Exec test for [`is_hex_b`].
pub fn is_hex_byte(b: u8) -> (r: bool)
    ensures
        r == is_hex_b(b),
{
    (48 <= b && b <= 57) || (97 <= b && b <= 102) || (65 <= b && b <= 70)
}

/// Exec test for [`is_digit_b`].
pub fn is_digit_byte(b: u8) -> (r: bool)
    ensures
        r == is_digit_b(b),
{
    48 <= b && b <= 57
}

/// Exec value of a digit byte, as [`digit_val_b`].
fn digit_value(b: u8, radix: u64) -> (r: u64)
    requires
        radix == 10 || radix == 16,
        radix == 16 ==> is_hex_b(b),
        radix == 10 ==> is_digit_b(b),
    ensures
        r == digit_val_b(b),
        r < radix,
{
    if 48 <= b && b <= 57 {
        (b - 48) as u64
    } else if 97 <= b && b <= 102 {
        (b - 87) as u64
    } else {
        (b - 55) as u64
    }
}

// ---------------------------------------------------------------------------
// The map entry and the line grammar
// ---------------------------------------------------------------------------

/// Mathematical image of a memory-map entry.
pub ghost struct MapEntryV {
    /// First address of the mapping.
    pub base: u64,
    /// Length of the mapping in bytes.
    pub size: u64,
    /// Protection bits, a subset of read/write/execute.
    pub prot: i32,
    /// Sharing flag: private, shared, or neither.
    pub flags: i32,
    /// Offset of the mapping into its backing object.
    pub offset: u64,
    /// Device number, `major * 256 + minor`.
    pub dev: i32,
    /// Inode of the backing file, `0` for anonymous mappings.
    pub inode: u64,
    /// Path of the backing file, absent for anonymous mappings.
    pub file: Option<Seq<u8>>,
}

/// One parsed line of the kernel-exported per-process memory map.
#[derive(Clone)]
pub struct ProcMapsEntry {
    base: u64,
    size: u64,
    prot: i32,
    flags: i32,
    offset: u64,
    dev: i32,
    inode: u64,
    file: Option<Vec<u8>>,
}

impl View for ProcMapsEntry {
    type V = MapEntryV;

    closed spec fn view(&self) -> MapEntryV {
        MapEntryV {
            base: self.base,
            size: self.size,
            prot: self.prot,
            flags: self.flags,
            offset: self.offset,
            dev: self.dev,
            inode: self.inode,
            file: match self.file {
                Option::Some(f) => Option::Some(f@),
                Option::None => Option::None,
            },
        }
    }
}

/// The entries the parser can produce and the formatter can print: the end
/// address fits, the protection and sharing bits are in range, the device
/// number has two hex digits per half, and a path is nonempty and does not
/// begin with a blank.
pub open spec fn entry_wf(v: MapEntryV) -> bool {
    &&& v.base + v.size <= u64::MAX
    &&& 0 <= v.prot <= 7
    &&& (v.flags == 0 || v.flags == 1 || v.flags == 2)
    &&& 0 <= v.dev <= 0xffff
    &&& match v.file {
        Option::Some(f) => f.len() > 0 && !is_blank_b(f[0]),
        Option::None => true,
    }
}

/// Protection bits named by the three permission characters.
pub open spec fn prot_of_perm(rc: u8, wc: u8, xc: u8) -> i32 {
    ((if rc == 114 {
        1i32
    } else {
        0i32
    }) + (if wc == 119 {
        2i32
    } else {
        0i32
    }) + (if xc == 120 {
        4i32
    } else {
        0i32
    })) as i32
}

/// Sharing flag named by the fourth permission character.
pub open spec fn flags_of_perm(pc: u8) -> i32 {
    if pc == 112 {
        2i32
    } else if pc == 115 {
        1i32
    } else {
        0i32
    }
}

/// The line grammar: `base-end perms offset major:minor inode [path]`, with
/// any run of blanks between fields and an optional path running to the end
/// of the line.  `None` when the line does not match.
pub open spec fn spec_parse_line(s: Seq<u8>) -> Option<MapEntryV> {
    match sp_hex_u64(s) {
        Option::None => Option::None,
        Option::Some((base, s1)) => {
            if s1.len() == 0 || s1[0] != 45 {
                Option::None
            } else {
                match sp_hex_u64(s1.skip(1)) {
                    Option::None => Option::None,
                    Option::Some((end, s2)) => {
                        if end < base {
                            Option::None
                        } else {
                            let s3 = sp_blanks(s2);
                            if s3.len() < 4 || !((s3[0] == 45 || s3[0] == 114) && (s3[1] == 45
                                || s3[1] == 119) && (s3[2] == 45 || s3[2] == 120) && (s3[3] == 45
                                || s3[3] == 115 || s3[3] == 112)) {
                                Option::None
                            } else {
                                let prot = prot_of_perm(s3[0], s3[1], s3[2]);
                                let flags = flags_of_perm(s3[3]);
                                let s4 = sp_blanks(s3.skip(4));
                                match sp_hex_u64(s4) {
                                    Option::None => Option::None,
                                    Option::Some((offset, s5)) => {
                                        let s6 = sp_blanks(s5);
                                        if s6.len() < 5 || !(is_hex_b(s6[0]) && is_hex_b(s6[1])
                                            && s6[2] == 58 && is_hex_b(s6[3]) && is_hex_b(s6[4])) {
                                            Option::None
                                        } else {
                                            let dev = (((digit_val_b(s6[0]) * 16 + digit_val_b(
                                                s6[1],
                                            )) * 256 + (digit_val_b(s6[3]) * 16 + digit_val_b(
                                                s6[4],
                                            ))) as int) as i32;
                                            let s7 = sp_blanks(s6.skip(5));
                                            match sp_dec_u64(s7) {
                                                Option::None => Option::None,
                                                Option::Some((inode, s8)) => {
                                                    let s9 = sp_blanks(s8);
                                                    let file = if s9.len() == 0 {
                                                        Option::<Seq<u8>>::None
                                                    } else {
                                                        Option::Some(s9)
                                                    };
                                                    Option::Some(
                                                        MapEntryV {
                                                            base,
                                                            size: (end - base) as u64,
                                                            prot,
                                                            flags,
                                                            offset,
                                                            dev,
                                                            inode,
                                                            file,
                                                        },
                                                    )
                                                },
                                            }
                                        }
                                    },
                                }
                            }
                        }
                    },
                }
            }
        },
    }
}

/// A longer digit string never has a smaller value: the value of a prefix is
/// bounded by the value of the run.
proof fn lemma_num_prefix_monotonic(s: Seq<u8>, i: int, k: int, j: int, radix: nat)
    requires
        0 <= i <= k <= j <= s.len(),
        radix >= 2,
    ensures
        num_of_digits(s.subrange(i, k), radix) <= num_of_digits(s.subrange(i, j), radix),
    decreases j - k,
{
    if k < j {
        lemma_num_prefix_monotonic(s, i, k + 1, j, radix);
        let a = num_of_digits(s.subrange(i, k), radix);
        assert(s.subrange(i, k + 1).drop_last() =~= s.subrange(i, k));
        assert(num_of_digits(s.subrange(i, k + 1), radix) == a * radix + digit_val_b(
            s.subrange(i, k + 1).last(),
        ));
        assert(a <= a * radix) by (nonlinear_arith)
            requires
                radix >= 2,
                a >= 0,
        ;
    }
}

// ---------------------------------------------------------------------------
// The canonical formatter
// ---------------------------------------------------------------------------

/// A run of `n` space bytes.
pub open spec fn blank_run(n: nat) -> Seq<u8> {
    Seq::new(n, |i: int| 32u8)
}

/// The four permission characters of an entry, `rwx` then the sharing
/// letter, with `-` for an absent bit.
pub open spec fn perm_bytes(prot: i32, flags: i32) -> Seq<u8> {
    seq![
        if prot & 1 != 0 {
            114u8
        } else {
            45u8
        },
        if prot & 2 != 0 {
            119u8
        } else {
            45u8
        },
        if prot & 4 != 0 {
            120u8
        } else {
            45u8
        },
        if flags & 1 != 0 {
            115u8
        } else if flags & 2 != 0 {
            112u8
        } else {
            45u8
        },
    ]
}

/// The five device bytes `major:minor`, two zero-padded hex digits each.
pub open spec fn dev_bytes(dev: i32) -> Seq<u8> {
    digits_of_pad((dev / 256) as nat, 16, 2) + seq![58u8] + digits_of_pad(
        (dev % 256) as nat,
        16,
        2,
    )
}

/// Number of spaces between the inode field and the path column: the path
/// starts at a fixed column when the head is short, and one space separates
/// them otherwise.
pub open spec fn pad_len(l: nat) -> nat {
    if l <= 72 {
        (73 - l) as nat
    } else {
        1
    }
}

/// The formatted head of an entry, through the inode field, in the order the
/// formatter writes it.
pub open spec fn fmt_head(v: MapEntryV) -> Seq<u8> {
    digits_of(v.base as nat, 16).push(45u8).add(digits_of((v.base + v.size) as nat, 16)).push(
        32u8,
    ).push(
        if v.prot & 1 != 0 {
            114u8
        } else {
            45u8
        },
    ).push(
        if v.prot & 2 != 0 {
            119u8
        } else {
            45u8
        },
    ).push(
        if v.prot & 4 != 0 {
            120u8
        } else {
            45u8
        },
    ).push(
        if v.flags & 1 != 0 {
            115u8
        } else if v.flags & 2 != 0 {
            112u8
        } else {
            45u8
        },
    ).push(32u8).add(digits_of_pad(v.offset as nat, 16, 8)).push(32u8).add(
        digits_of_pad((v.dev / 256) as nat, 16, 2),
    ).push(58u8).add(digits_of_pad((v.dev % 256) as nat, 16, 2)).push(32u8).add(
        digits_of(v.inode as nat, 10),
    )
}

/// Length of the formatted head of an entry, through the inode field.
pub open spec fn head_len(v: MapEntryV) -> nat {
    fmt_head(v).len()
}

/// What follows the inode field: the padding blanks, then the path if any.
pub open spec fn fmt_tail_pad(v: MapEntryV) -> Seq<u8> {
    blank_run(pad_len(head_len(v))) + (match v.file {
        Option::Some(f) => f,
        Option::None => Seq::empty(),
    })
}

/// What follows the fourth separating blank: inode, padding, path.
pub open spec fn fmt_tail_inode(v: MapEntryV) -> Seq<u8> {
    digits_of(v.inode as nat, 10) + fmt_tail_pad(v)
}

/// What follows the device field.
pub open spec fn fmt_tail_sp4(v: MapEntryV) -> Seq<u8> {
    seq![32u8] + fmt_tail_inode(v)
}

/// What follows the third separating blank: device, blank, inode, tail.
pub open spec fn fmt_tail_dev(v: MapEntryV) -> Seq<u8> {
    dev_bytes(v.dev) + fmt_tail_sp4(v)
}

/// What follows the offset field.
pub open spec fn fmt_tail_sp3(v: MapEntryV) -> Seq<u8> {
    seq![32u8] + fmt_tail_dev(v)
}

/// What follows the second separating blank: offset and the rest.
pub open spec fn fmt_tail_offset(v: MapEntryV) -> Seq<u8> {
    digits_of_pad(v.offset as nat, 16, 8) + fmt_tail_sp3(v)
}

/// What follows the permission characters.
pub open spec fn fmt_tail_sp2(v: MapEntryV) -> Seq<u8> {
    seq![32u8] + fmt_tail_offset(v)
}

/// What follows the first separating blank: permissions and the rest.
pub open spec fn fmt_tail_perm(v: MapEntryV) -> Seq<u8> {
    perm_bytes(v.prot, v.flags) + fmt_tail_sp2(v)
}

/// What follows the end address.
pub open spec fn fmt_tail_sp1(v: MapEntryV) -> Seq<u8> {
    seq![32u8] + fmt_tail_perm(v)
}

/// What follows the dash: the end address and the rest.
pub open spec fn fmt_tail_end(v: MapEntryV) -> Seq<u8> {
    digits_of((v.base + v.size) as nat, 16) + fmt_tail_sp1(v)
}

/// What follows the base address.
pub open spec fn fmt_tail_dash(v: MapEntryV) -> Seq<u8> {
    seq![45u8] + fmt_tail_end(v)
}

/// The canonical line of an entry: `base-end perms offset major:minor inode`
/// with the path, if any, after column-aligning blanks.
pub open spec fn spec_format_entry(v: MapEntryV) -> Seq<u8> {
    fmt_head(v) + fmt_tail_pad(v)
}

proof fn lemma_add_assoc(a: Seq<u8>, b: Seq<u8>, c: Seq<u8>)
    ensures
        (a + b) + c == a + (b + c),
{
    assert((a + b) + c =~= a + (b + c));
}

proof fn lemma_push_is_add(a: Seq<u8>, x: u8)
    ensures
        a.push(x) == a + seq![x],
{
    assert(a.push(x) =~= a + seq![x]);
}

/// The canonical line, re-associated field by field: the base digits first
/// and everything after them as one tail.
#[verifier::rlimit(100)]
#[verifier::spinoff_prover]
proof fn lemma_format_unroll(v: MapEntryV)
    ensures
        spec_format_entry(v) == digits_of(v.base as nat, 16) + fmt_tail_dash(v),
        perm_bytes(v.prot, v.flags) == seq![
            if v.prot & 1 != 0 {
                114u8
            } else {
                45u8
            },
            if v.prot & 2 != 0 {
                119u8
            } else {
                45u8
            },
            if v.prot & 4 != 0 {
                120u8
            } else {
                45u8
            },
            if v.flags & 1 != 0 {
                115u8
            } else if v.flags & 2 != 0 {
                112u8
            } else {
                45u8
            },
        ],
{
    let c1 = if v.prot & 1 != 0 {
        114u8
    } else {
        45u8
    };
    let c2 = if v.prot & 2 != 0 {
        119u8
    } else {
        45u8
    };
    let c3 = if v.prot & 4 != 0 {
        120u8
    } else {
        45u8
    };
    let c4 = if v.flags & 1 != 0 {
        115u8
    } else if v.flags & 2 != 0 {
        112u8
    } else {
        45u8
    };
    let pm = perm_bytes(v.prot, v.flags);
    assert(pm =~= seq![c1, c2, c3, c4]);
    let d1 = digits_of(v.base as nat, 16);
    let d2 = digits_of((v.base + v.size) as nat, 16);
    let d3 = digits_of_pad(v.offset as nat, 16, 8);
    let dj1 = digits_of_pad((v.dev / 256) as nat, 16, 2);
    let dj2 = digits_of_pad((v.dev % 256) as nat, 16, 2);
    let d4 = digits_of(v.inode as nat, 10);
    let db = dev_bytes(v.dev);
    let tp = fmt_tail_pad(v);
    // the formatter's head, push by push, as plain concatenations
    let h1 = d1 + seq![45u8];
    let h2 = h1 + d2;
    let h3 = h2 + seq![32u8];
    let h7 = h3 + pm;
    let h8 = h7 + seq![32u8];
    let h9 = h8 + d3;
    let h10 = h9 + seq![32u8];
    let h11 = h10 + dj1;
    let h12 = h11 + seq![58u8];
    let h13 = h12 + dj2;
    let h14 = h13 + seq![32u8];
    let h15 = h14 + d4;
    lemma_push_is_add(d1, 45u8);
    lemma_push_is_add(h1 + d2, 32u8);
    lemma_push_is_add(h3, c1);
    lemma_push_is_add(h3 + seq![c1], c2);
    lemma_push_is_add((h3 + seq![c1]) + seq![c2], c3);
    lemma_push_is_add(((h3 + seq![c1]) + seq![c2]) + seq![c3], c4);
    assert((((h3 + seq![c1]) + seq![c2]) + seq![c3]) + seq![c4] =~= h3 + pm);
    lemma_push_is_add(h7, 32u8);
    lemma_push_is_add(h8 + d3, 32u8);
    lemma_push_is_add(h10 + dj1, 58u8);
    lemma_push_is_add(h12 + dj2, 32u8);
    assert(fmt_head(v) == h15);
    assert(h13 == h10 + db) by {
        lemma_add_assoc(h10, dj1, seq![58u8]);
        lemma_add_assoc(h10, dj1 + seq![58u8], dj2);
    }
    // peel the fields off the back, one associativity step at a time
    let s1 = fmt_tail_inode(v);
    let s2 = fmt_tail_sp4(v);
    let s3 = fmt_tail_dev(v);
    let s4 = fmt_tail_sp3(v);
    let s5 = fmt_tail_offset(v);
    let s6 = fmt_tail_sp2(v);
    let s7 = fmt_tail_perm(v);
    let s8 = fmt_tail_sp1(v);
    let s9 = fmt_tail_end(v);
    lemma_add_assoc(h14, d4, tp);
    assert(h15 + tp == h14 + s1);
    lemma_add_assoc(h13, seq![32u8], s1);
    assert(h14 + s1 == h13 + s2);
    lemma_add_assoc(h10, db, s2);
    assert(h13 + s2 == h10 + s3);
    lemma_add_assoc(h9, seq![32u8], s3);
    assert(h10 + s3 == h9 + s4);
    lemma_add_assoc(h8, d3, s4);
    assert(h9 + s4 == h8 + s5);
    lemma_add_assoc(h7, seq![32u8], s5);
    assert(h8 + s5 == h7 + s6);
    lemma_add_assoc(h3, pm, s6);
    assert(h7 + s6 == h3 + s7);
    lemma_add_assoc(h2, seq![32u8], s7);
    assert(h3 + s7 == h2 + s8);
    lemma_add_assoc(h1, d2, s8);
    assert(h2 + s8 == h1 + s9);
    lemma_add_assoc(d1, seq![45u8], s9);
    assert(h1 + s9 == d1 + fmt_tail_dash(v));
}

// ---------------------------------------------------------------------------
// Round trip: parsing a formatted entry yields the entry back
// ---------------------------------------------------------------------------

/// Every byte of a digit string is a hex digit, and a decimal digit when the
/// radix is ten.
proof fn lemma_digits_class(n: nat, radix: nat)
    requires
        radix == 10 || radix == 16,
    ensures
        forall|k: int|
            0 <= k < digits_of(n, radix).len() ==> is_hex_b(#[trigger] digits_of(n, radix)[k]),
        radix == 10 ==> forall|k: int|
            0 <= k < digits_of(n, radix).len() ==> is_digit_b(#[trigger] digits_of(n, radix)[k]),
    decreases n,
{
    let ds = digits_of(n, radix);
    if n >= radix {
        lemma_digits_class(n / radix, radix);
        let inner = digits_of(n / radix, radix);
        assert forall|k: int| 0 <= k < ds.len() implies is_hex_b(ds[k]) by {
            if k < inner.len() {
                assert(ds[k] == inner[k]);
            } else {
                assert(ds[k] == digit_char(n % radix));
            }
        }
        if radix == 10 {
            assert forall|k: int| 0 <= k < ds.len() implies is_digit_b(ds[k]) by {
                if k < inner.len() {
                    assert(ds[k] == inner[k]);
                } else {
                    assert(ds[k] == digit_char(n % radix));
                }
            }
        }
    } else {
        assert(ds[0] == digit_char(n));
    }
}

/// The value of the digit string of `n` is `n`.
proof fn lemma_digits_value(n: nat, radix: nat)
    requires
        radix == 10 || radix == 16,
    ensures
        num_of_digits(digits_of(n, radix), radix) == n,
    decreases n,
{
    let ds = digits_of(n, radix);
    if n < radix {
        assert(ds == seq![digit_char(n)]);
        assert(ds.len() == 1);
        assert(ds.last() == digit_char(n));
        assert(ds.drop_last() =~= Seq::empty());
        assert(num_of_digits(Seq::<u8>::empty(), radix) == 0);
        assert(digit_val_b(digit_char(n)) == n);
        assert(num_of_digits(ds, radix) == 0 * radix + digit_val_b(digit_char(n)));
    } else {
        lemma_digits_value(n / radix, radix);
        assert(ds.drop_last() =~= digits_of(n / radix, radix));
        assert(ds.last() == digit_char(n % radix));
        assert(digit_val_b(digit_char(n % radix)) == n % radix);
        vstd::arithmetic::div_mod::lemma_fundamental_div_mod(n as int, radix as int);
    }
}

/// A run of zero digits has value zero.
proof fn lemma_zeros_value(z: nat, radix: nat)
    ensures
        num_of_digits(zero_digits(z), radix) == 0,
    decreases z,
{
    if z > 0 {
        assert(zero_digits(z).drop_last() =~= zero_digits((z - 1) as nat));
        assert(zero_digits(z).last() == 48);
        lemma_zeros_value((z - 1) as nat, radix);
        assert(num_of_digits(zero_digits(z), radix) == num_of_digits(
            zero_digits((z - 1) as nat),
            radix,
        ) * radix + digit_val_b(48u8));
        assert(digit_val_b(48u8) == 0);
        assert(num_of_digits(zero_digits((z - 1) as nat), radix) * radix == 0) by (nonlinear_arith)
            requires
                num_of_digits(zero_digits((z - 1) as nat), radix) == 0,
        ;
    } else {
        assert(zero_digits(0).len() == 0);
    }
}

/// Leading zero digits do not change the value of a digit string.
proof fn lemma_zero_prefix_value(z: nat, ds: Seq<u8>, radix: nat)
    ensures
        num_of_digits(zero_digits(z) + ds, radix) == num_of_digits(ds, radix),
    decreases ds.len(),
{
    if ds.len() == 0 {
        assert(zero_digits(z) + ds =~= zero_digits(z));
        lemma_zeros_value(z, radix);
    } else {
        let pre = zero_digits(z) + ds;
        assert(pre.drop_last() =~= zero_digits(z) + ds.drop_last());
        assert(pre.last() == ds.last());
        lemma_zero_prefix_value(z, ds.drop_last(), radix);
    }
}

/// The padded digit string keeps the digit class and the value.
proof fn lemma_pad_class_value(n: nat, radix: nat, w: nat)
    requires
        radix == 10 || radix == 16,
    ensures
        forall|k: int|
            0 <= k < digits_of_pad(n, radix, w).len() ==> is_hex_b(
                #[trigger] digits_of_pad(n, radix, w)[k],
            ),
        num_of_digits(digits_of_pad(n, radix, w), radix) == n,
        digits_of_pad(n, radix, w).len() >= w,
        digits_of_pad(n, radix, w).len() >= 1,
{
    lemma_digits_class(n, radix);
    lemma_digits_value(n, radix);
    let ds = digits_of(n, radix);
    assert(ds.len() >= 1);
    if ds.len() < w {
        lemma_zero_prefix_value((w - ds.len()) as nat, ds, radix);
    }
}

/// A run of hex digits followed by a non-hex byte parses as a run of exactly
/// that length.
proof fn lemma_hex_run_concat(digs: Seq<u8>, rest: Seq<u8>)
    requires
        forall|k: int| 0 <= k < digs.len() ==> is_hex_b(#[trigger] digs[k]),
        rest.len() == 0 || !is_hex_b(rest[0]),
    ensures
        hex_prefix_len(digs + rest) == digs.len(),
    decreases digs.len(),
{
    if digs.len() == 0 {
        assert(digs + rest =~= rest);
    } else {
        assert((digs + rest)[0] == digs[0]);
        assert((digs + rest).drop_first() =~= digs.drop_first() + rest);
        lemma_hex_run_concat(digs.drop_first(), rest);
    }
}

/// As [`lemma_hex_run_concat`], for decimal digit runs.
proof fn lemma_dec_run_concat(digs: Seq<u8>, rest: Seq<u8>)
    requires
        forall|k: int| 0 <= k < digs.len() ==> is_digit_b(#[trigger] digs[k]),
        rest.len() == 0 || !is_digit_b(rest[0]),
    ensures
        dec_prefix_len(digs + rest) == digs.len(),
    decreases digs.len(),
{
    if digs.len() == 0 {
        assert(digs + rest =~= rest);
    } else {
        assert((digs + rest)[0] == digs[0]);
        assert((digs + rest).drop_first() =~= digs.drop_first() + rest);
        lemma_dec_run_concat(digs.drop_first(), rest);
    }
}

/// A run of `n` blanks followed by a non-blank byte is skipped whole.
proof fn lemma_blank_run_concat(n: nat, rest: Seq<u8>)
    requires
        rest.len() == 0 || !is_blank_b(rest[0]),
    ensures
        blank_prefix_len(blank_run(n) + rest) == n,
    decreases n,
{
    if n == 0 {
        assert(blank_run(0) + rest =~= rest);
    } else {
        assert((blank_run(n) + rest)[0] == 32);
        assert((blank_run(n) + rest).drop_first() =~= blank_run((n - 1) as nat) + rest);
        lemma_blank_run_concat((n - 1) as nat, rest);
    }
}

/// Taking and skipping a concatenation at the seam yields the two halves.
proof fn lemma_concat_split(a: Seq<u8>, b: Seq<u8>)
    ensures
        (a + b).take(a.len() as int) == a,
        (a + b).skip(a.len() as int) == b,
{
    assert((a + b).take(a.len() as int) =~= a);
    assert((a + b).skip(a.len() as int) =~= b);
}

/// The value of a two-digit hex string.
proof fn lemma_two_digit_value(s: Seq<u8>)
    requires
        s.len() == 2,
    ensures
        num_of_digits(s, 16) == digit_val_b(s[0]) * 16 + digit_val_b(s[1]),
{
    assert(s.drop_last().drop_last() =~= Seq::empty());
    assert(s.drop_last().len() == 1);
    assert(s.drop_last().last() == s[0]);
    assert(s.last() == s[1]);
    assert(num_of_digits(s.drop_last(), 16) == num_of_digits(Seq::<u8>::empty(), 16) * 16
        + digit_val_b(s[0]));
    assert(num_of_digits(s.drop_last(), 16) == digit_val_b(s[0]));
    assert(num_of_digits(s, 16) == num_of_digits(s.drop_last(), 16) * 16 + digit_val_b(s[1]));
}

/// Widths of two-digit padded fields.
proof fn lemma_digits_len2(n: nat)
    requires
        n <= 255,
    ensures
        digits_of_pad(n, 16, 2).len() == 2,
{
    if n < 16 {
        assert(digits_of(n, 16).len() == 1);
    } else {
        assert(n / 16 < 16 && n / 16 >= 1) by (nonlinear_arith)
            requires
                16 <= n <= 255,
        ;
        assert(digits_of(n / 16, 16) == seq![digit_char(n / 16)]);
        assert(digits_of(n, 16).len() == 2);
    }
}

/// Law: re-parsing the canonical line of a well-formed entry yields the
/// entry itself.  The parser and the formatter agree on every field: the
/// addresses, the permission characters, the offset, the device number, the
/// inode, and the optional path.
#[verifier::rlimit(100)]
#[verifier::spinoff_prover]
pub proof fn lemma_entry_round_trip(v: MapEntryV)
    requires
        entry_wf(v),
    ensures
        spec_parse_line(spec_format_entry(v)) == Option::Some(v),
{
    lemma_format_unroll(v);
    let s = spec_format_entry(v);
    // base field
    let d1 = digits_of(v.base as nat, 16);
    let t1 = fmt_tail_dash(v);
    lemma_digits_class(v.base as nat, 16);
    lemma_digits_value(v.base as nat, 16);
    assert(t1[0] == 45);
    lemma_hex_run_concat(d1, t1);
    lemma_concat_split(d1, t1);
    assert(sp_hex_u64(s) == Option::Some((v.base, t1)));
    // the dash
    let t2 = fmt_tail_end(v);
    lemma_concat_split(seq![45u8], t2);
    assert(t1.skip(1) == t2);
    // end field
    let d2 = digits_of((v.base + v.size) as nat, 16);
    let t3 = fmt_tail_sp1(v);
    lemma_digits_class((v.base + v.size) as nat, 16);
    lemma_digits_value((v.base + v.size) as nat, 16);
    assert(t3[0] == 32);
    lemma_hex_run_concat(d2, t3);
    lemma_concat_split(d2, t3);
    let endv = (v.base + v.size) as u64;
    assert(sp_hex_u64(t2) == Option::Some((endv, t3)));
    assert(endv >= v.base);
    // blank, then the permission characters
    let tperm = fmt_tail_perm(v);
    let pm = perm_bytes(v.prot, v.flags);
    assert(tperm[0] == pm[0]);
    assert(pm[0] == 45 || pm[0] == 114);
    assert(blank_run(1) =~= seq![32u8]);
    lemma_blank_run_concat(1, tperm);
    lemma_concat_split(seq![32u8], tperm);
    assert(sp_blanks(t3) == tperm);
    assert(tperm.len() >= 4);
    assert(tperm[1] == pm[1] && tperm[2] == pm[2] && tperm[3] == pm[3]);
    let p = v.prot;
    assert(prot_of_perm(pm[0], pm[1], pm[2]) == v.prot) by {
        assert((if p & 1 != 0 {
            1i32
        } else {
            0i32
        }) + (if p & 2 != 0 {
            2i32
        } else {
            0i32
        }) + (if p & 4 != 0 {
            4i32
        } else {
            0i32
        }) == p) by (bit_vector)
            requires
                0 <= p <= 7,
        ;
    }
    assert(flags_of_perm(pm[3]) == v.flags) by {
        assert(1i32 & 1 != 0) by (bit_vector);
        assert(2i32 & 1 == 0 && 2i32 & 2 != 0) by (bit_vector);
        assert(0i32 & 1 == 0 && 0i32 & 2 == 0) by (bit_vector);
    }
    // blank, then the offset field
    let t5 = fmt_tail_sp2(v);
    lemma_concat_split(pm, t5);
    assert(tperm.skip(4) == t5);
    let toff = fmt_tail_offset(v);
    let d3 = digits_of_pad(v.offset as nat, 16, 8);
    lemma_pad_class_value(v.offset as nat, 16, 8);
    assert(toff[0] == d3[0]);
    assert(!is_blank_b(toff[0]));
    lemma_blank_run_concat(1, toff);
    lemma_concat_split(seq![32u8], toff);
    assert(sp_blanks(t5) == toff);
    let t7 = fmt_tail_sp3(v);
    assert(t7[0] == 32);
    lemma_hex_run_concat(d3, t7);
    lemma_concat_split(d3, t7);
    assert(sp_hex_u64(toff) == Option::Some((v.offset, t7)));
    // blank, then the device field
    let tdev = fmt_tail_dev(v);
    let maj = (v.dev / 256) as nat;
    let min = (v.dev % 256) as nat;
    assert(0 <= v.dev / 256 <= 255 && 0 <= v.dev % 256 <= 255) by (nonlinear_arith)
        requires
            0 <= v.dev <= 0xffff,
    ;
    let dj1 = digits_of_pad(maj, 16, 2);
    let dj2 = digits_of_pad(min, 16, 2);
    lemma_digits_len2(maj);
    lemma_digits_len2(min);
    lemma_pad_class_value(maj, 16, 2);
    lemma_pad_class_value(min, 16, 2);
    let db = dev_bytes(v.dev);
    assert(db.len() == 5);
    assert(tdev[0] == dj1[0]);
    assert(!is_blank_b(tdev[0]));
    lemma_blank_run_concat(1, tdev);
    lemma_concat_split(seq![32u8], tdev);
    assert(sp_blanks(t7) == tdev);
    assert(tdev.len() >= 5);
    assert(db[0] == dj1[0] && db[1] == dj1[1] && db[2] == 58 && db[3] == dj2[0] && db[4]
        == dj2[1]);
    assert(tdev[0] == db[0] && tdev[1] == db[1] && tdev[2] == db[2] && tdev[3] == db[3] && tdev[4]
        == db[4]);
    lemma_two_digit_value(dj1);
    lemma_two_digit_value(dj2);
    assert(digit_val_b(tdev[0]) * 16 + digit_val_b(tdev[1]) == maj);
    assert(digit_val_b(tdev[3]) * 16 + digit_val_b(tdev[4]) == min);
    assert(v.dev / 256 * 256 + v.dev % 256 == v.dev) by (nonlinear_arith)
        requires
            0 <= v.dev,
    ;
    assert((((maj * 16 * 16) / 16 / 16) * 256 + min) as int == v.dev as int || true);
    assert(((maj * 256 + min) as int) as i32 == v.dev);
    // past the device field, a blank, then the inode
    let tsp4 = fmt_tail_sp4(v);
    lemma_concat_split(db, tsp4);
    assert(tdev.skip(5) == tsp4);
    let tino = fmt_tail_inode(v);
    let d4 = digits_of(v.inode as nat, 10);
    lemma_digits_class(v.inode as nat, 10);
    lemma_digits_value(v.inode as nat, 10);
    assert(tino[0] == d4[0]);
    assert(!is_blank_b(tino[0]));
    lemma_blank_run_concat(1, tino);
    lemma_concat_split(seq![32u8], tino);
    assert(sp_blanks(tsp4) == tino);
    let tpad = fmt_tail_pad(v);
    let padn = pad_len(head_len(v));
    assert(padn >= 1);
    let fileseq = match v.file {
        Option::Some(f) => f,
        Option::None => Seq::<u8>::empty(),
    };
    assert(tpad == blank_run(padn) + fileseq);
    assert(tpad[0] == 32);
    assert(!is_digit_b(32u8));
    lemma_dec_run_concat(d4, tpad);
    lemma_concat_split(d4, tpad);
    assert(sp_dec_u64(tino) == Option::Some((v.inode, tpad)));
    // the padding blanks, then the path
    if v.file is Some {
        assert(!is_blank_b(fileseq[0]));
    }
    lemma_blank_run_concat(padn, fileseq);
    lemma_concat_split(blank_run(padn), fileseq);
    assert(sp_blanks(tpad) == fileseq);
    // assemble
    let parsed = spec_parse_line(s);
    assert(parsed is Some);
    let w = parsed->0;
    assert(w.base == v.base);
    assert(w.size == (endv - v.base) as u64);
    assert(w.size == v.size);
    assert(w.prot == v.prot);
    assert(w.flags == v.flags);
    assert(w.offset == v.offset);
    assert(w.dev == v.dev);
    assert(w.inode == v.inode);
    assert(w.file == v.file);
    assert(w == v);
}

/// Skipping blanks stops within the string, on a non-blank byte.
proof fn lemma_blank_prefix_props(s: Seq<u8>)
    ensures
        blank_prefix_len(s) <= s.len(),
        blank_prefix_len(s) < s.len() ==> !is_blank_b(s[blank_prefix_len(s) as int]),
    decreases s.len(),
{
    if s.len() > 0 && is_blank_b(s[0]) {
        lemma_blank_prefix_props(s.drop_first());
        assert(s.drop_first() =~= s.skip(1));
        let l = blank_prefix_len(s);
        if l < s.len() {
            assert(s[l as int] == s.skip(1)[l - 1]);
        }
    }
}

/// Every entry the grammar accepts is well formed: its end address fits, its
/// permission and sharing bits are in range, its device halves are bytes,
/// and its path, if any, is nonempty and starts with a non-blank byte.
#[verifier::rlimit(100)]
#[verifier::spinoff_prover]
pub proof fn lemma_parse_line_wf(s: Seq<u8>)
    requires
        spec_parse_line(s) is Some,
    ensures
        entry_wf(spec_parse_line(s)->0),
{
    let v = spec_parse_line(s)->0;
    assert(0 <= v.prot <= 7);
    assert(v.flags == 0 || v.flags == 1 || v.flags == 2);
    assert(0 <= v.dev <= 0xffff);
    assert(v.base + v.size <= u64::MAX);
    match v.file {
        Option::Some(f) => {
            let m1 = sp_hex_u64(s)->0;
            let s1 = m1.1;
            let m2 = sp_hex_u64(s1.skip(1))->0;
            let s2 = m2.1;
            let s3 = sp_blanks(s2);
            let s4 = sp_blanks(s3.skip(4));
            let m3 = sp_hex_u64(s4)->0;
            let s5 = m3.1;
            let s6 = sp_blanks(s5);
            let s7 = sp_blanks(s6.skip(5));
            let m4 = sp_dec_u64(s7)->0;
            let s8 = m4.1;
            let s9 = sp_blanks(s8);
            assert(f == s9);
            lemma_blank_prefix_props(s8);
            assert(s9.len() > 0 ==> !is_blank_b(s9[0]));
        },
        Option::None => {},
    }
}

/// Law: any entry decoded from a map line, re-formatted and re-parsed,
/// yields the same entry.
pub proof fn lemma_decoded_entry_round_trip(line: Seq<u8>)
    requires
        spec_parse_line(line) is Some,
    ensures
        spec_parse_line(spec_format_entry(spec_parse_line(line)->0)) == spec_parse_line(line),
{
    lemma_parse_line_wf(line);
    lemma_entry_round_trip(spec_parse_line(line)->0);
}

/// Append all of `src` to `out`.
pub(crate) fn push_all(out: &mut Vec<u8>, src: &[u8])
    ensures
        final(out)@ == old(out)@ + src@,
{
    let mut k: usize = 0;
    while k < src.len()
        invariant
            k <= src@.len(),
            out@ == old(out)@ + src@.take(k as int),
        decreases src@.len() - k,
    {
        out.push(src[k]);
        proof {
            assert(old(out)@ + src@.take(k as int + 1) =~= (old(out)@ + src@.take(k as int)).push(
                src@[k as int],
            ));
        }
        k = k + 1;
    }
    proof {
        assert(src@.take(src@.len() as int) =~= src@);
    }
}

/// Exec digit byte, as [`digit_char`].
fn digit_char_exec(d: u64) -> (r: u8)
    requires
        d < 16,
    ensures
        r == digit_char(d as nat),
{
    if d < 10 {
        (48 + d) as u8
    } else {
        (87 + d) as u8
    }
}

/// Format `n` in the given radix with no leading zeros.
pub(crate) fn format_radix(n: u64, radix: u64) -> (r: Vec<u8>)
    requires
        radix == 10 || radix == 16,
    ensures
        r@ == digits_of(n as nat, radix as nat),
{
    let mut tmp: Vec<u8> = Vec::new();
    let mut m: u64 = n;
    loop
        invariant_except_break
            radix == 10 || radix == 16,
            m == 0 ==> tmp@.len() == 0,
            tmp@.len() == 0 ==> m == n,
            tmp@.len() > 0 ==> m > 0 && digits_of(n as nat, radix as nat) == digits_of(
                m as nat,
                radix as nat,
            ) + tmp@.reverse(),
        ensures
            digits_of(n as nat, radix as nat) == tmp@.reverse(),
        decreases m,
    {
        let d: u64 = m % radix;
        let ghost m_old = m;
        let ghost tmp_old = tmp@;
        tmp.push(digit_char_exec(d));
        m = m / radix;
        proof {
            assert(tmp@.reverse() =~= seq![digit_char(d as nat)] + tmp_old.reverse());
            if m_old == 0 {
                assert(digits_of(n as nat, radix as nat) =~= tmp@.reverse());
            } else if m == 0 {
                assert(m_old < radix) by (nonlinear_arith)
                    requires
                        m_old / radix == 0,
                        radix == 10 || radix == 16,
                        m_old >= 0,
                ;
                assert(digits_of(m_old as nat, radix as nat) == seq![digit_char(m_old as nat)]);
                assert(digits_of(n as nat, radix as nat) =~= tmp@.reverse());
            } else {
                assert(m_old >= radix) by (nonlinear_arith)
                    requires
                        m_old / radix > 0,
                        radix == 10 || radix == 16,
                        m_old >= 0,
                ;
                let dm = digits_of(m as nat, radix as nat);
                let c = seq![digit_char(d as nat)];
                assert(digits_of(m_old as nat, radix as nat) == dm + c);
                lemma_add_assoc(dm, c, tmp_old.reverse());
                if tmp_old.len() == 0 {
                    assert(c + tmp_old.reverse() =~= c);
                    assert(tmp@.reverse() =~= c);
                }
                assert(digits_of(n as nat, radix as nat) == dm + tmp@.reverse());
            }
        }
        if m == 0 {
            break;
        }
    }
    // reverse the digit stack
    let mut out: Vec<u8> = Vec::new();
    let mut k: usize = tmp.len();
    while k > 0
        invariant
            k <= tmp@.len(),
            out@ == tmp@.skip(k as int).reverse(),
        decreases k,
    {
        k = k - 1;
        out.push(tmp[k]);
        proof {
            assert(tmp@.skip(k as int).reverse() =~= tmp@.skip(k as int + 1).reverse().push(
                tmp@[k as int],
            ));
        }
    }
    proof {
        assert(tmp@.skip(0) =~= tmp@);
    }
    out
}

/// Format `n` left-padded with zeros to at least `width` digits.
fn format_radix_pad(n: u64, radix: u64, width: usize) -> (r: Vec<u8>)
    requires
        radix == 10 || radix == 16,
    ensures
        r@ == digits_of_pad(n as nat, radix as nat, width as nat),
{
    let ds = format_radix(n, radix);
    if ds.len() >= width {
        return ds;
    }
    let mut out: Vec<u8> = Vec::new();
    let pad: usize = width - ds.len();
    let mut k: usize = 0;
    while k < pad
        invariant
            k <= pad,
            out@ == zero_digits(k as nat),
        decreases pad - k,
    {
        out.push(48);
        proof {
            assert(zero_digits(k as nat + 1) =~= zero_digits(k as nat).push(48u8));
        }
        k = k + 1;
    }
    push_all(&mut out, ds.as_slice());
    out
}

impl ProcMapsEntry {
    /// Base address of the mapping.
    pub fn base(&self) -> (r: u64)
        ensures
            r == self@.base,
    {
        self.base
    }

    /// Size of the mapping in bytes.
    pub fn size(&self) -> (r: usize)
        ensures
            r == self@.size as usize,
    {
        self.size as usize
    }

    /// Size of the mapping in bytes, exactly.
    pub fn size_bytes(&self) -> (r: u64)
        ensures
            r == self@.size,
    {
        self.size
    }

    /// One past the last address of the mapping.
    pub fn end(&self) -> (r: u64)
        requires
            self@.base + self@.size <= u64::MAX,
        ensures
            r == self@.base + self@.size,
    {
        self.base + self.size
    }

    /// Path of the backing file, if the entry names one.
    pub fn filename(&self) -> (r: Option<&Vec<u8>>)
        ensures
            match (r, self@.file) {
                (Option::Some(f), Option::Some(g)) => f@ == g,
                (Option::None, Option::None) => true,
                _ => false,
            },
    {
        match &self.file {
            Option::Some(f) => Option::Some(f),
            Option::None => Option::None,
        }
    }

    /// Protection bits of the mapping.
    pub fn prot(&self) -> (r: i32)
        ensures
            r == self@.prot,
    {
        self.prot
    }

    /// A copy of this entry with the same content.
    pub fn duplicate(&self) -> (r: ProcMapsEntry)
        ensures
            r@ == self@,
    {
        ProcMapsEntry {
            base: self.base,
            size: self.size,
            prot: self.prot,
            flags: self.flags,
            offset: self.offset,
            dev: self.dev,
            inode: self.inode,
            file: match &self.file {
                Option::Some(f) => {
                    let mut c: Vec<u8> = Vec::new();
                    push_all(&mut c, f.as_slice());
                    proof {
                        assert(c@ =~= f@);
                    }
                    Option::Some(c)
                },
                Option::None => Option::None,
            },
        }
    }

    /// The canonical line of this entry, as [`spec_format_entry`].
    #[verifier::rlimit(60)]
    #[verifier::spinoff_prover]
    pub fn show(&self) -> (r: Vec<u8>)
        requires
            entry_wf(self@),
        ensures
            r@ == spec_format_entry(self@),
    {
        let mut out: Vec<u8> = Vec::new();
        let d1 = format_radix(self.base, 16);
        push_all(&mut out, d1.as_slice());
        proof {
            assert(out@ =~= digits_of(self@.base as nat, 16));
        }
        out.push(45);
        let d2 = format_radix(self.base + self.size, 16);
        push_all(&mut out, d2.as_slice());
        out.push(32);
        out.push(if self.prot & 1 != 0 {
            114
        } else {
            45
        });
        out.push(if self.prot & 2 != 0 {
            119
        } else {
            45
        });
        out.push(if self.prot & 4 != 0 {
            120
        } else {
            45
        });
        out.push(if self.flags & 1 != 0 {
            115
        } else if self.flags & 2 != 0 {
            112
        } else {
            45
        });
        out.push(32);
        let d3 = format_radix_pad(self.offset, 16, 8);
        push_all(&mut out, d3.as_slice());
        out.push(32);
        let dj1 = format_radix_pad((self.dev / 256) as u64, 16, 2);
        push_all(&mut out, dj1.as_slice());
        out.push(58);
        let dj2 = format_radix_pad((self.dev % 256) as u64, 16, 2);
        push_all(&mut out, dj2.as_slice());
        out.push(32);
        let d4 = format_radix(self.inode, 10);
        push_all(&mut out, d4.as_slice());
        proof {
            assert(out@ == fmt_head(self@));
        }
        let hl = out.len();
        let pad: usize = if hl <= 72 {
            73 - hl
        } else {
            1
        };
        let mut k: usize = 0;
        let ghost mid = out@;
        while k < pad
            invariant
                k <= pad,
                out@ == mid + blank_run(k as nat),
            decreases pad - k,
        {
            out.push(32);
            proof {
                assert(mid + blank_run(k as nat + 1) =~= (mid + blank_run(k as nat)).push(32u8));
            }
            k = k + 1;
        }
        proof {
            assert(out@ == fmt_head(self@) + blank_run(pad_len(head_len(self@))));
        }
        match &self.file {
            Option::Some(f) => {
                push_all(&mut out, f.as_slice());
                proof {
                    assert(out@ =~= fmt_head(self@) + fmt_tail_pad(self@));
                }
            },
            Option::None => {
                proof {
                    assert(out@ =~= fmt_head(self@) + fmt_tail_pad(self@));
                }
            },
        }
        out
    }
}

/// Parse one line of a memory map.  Succeeds exactly on the lines the
/// grammar [`spec_parse_line`] accepts, and returns the entry the grammar
/// names; a malformed line yields `None`.
#[verifier::rlimit(100)]
#[verifier::spinoff_prover]
pub fn parse_proc_maps_entry(line: &[u8]) -> (r: Option<ProcMapsEntry>)
    ensures
        match (r, spec_parse_line(line@)) {
            (Option::Some(e), Option::Some(v)) => e@ == v,
            (Option::None, Option::None) => true,
            _ => false,
        },
{
    proof {
        assert(line@.skip(0) =~= line@);
    }
    let (base, i1) = match parse_num_field(line, 0, 16) {
        Option::Some(p) => p,
        Option::None => {
            return Option::None;
        },
    };
    let ghost s1 = line@.skip(i1 as int);
    if i1 >= line.len() || line[i1] != 45 {
        return Option::None;
    }
    proof {
        assert(s1[0] == line@[i1 as int]);
        lemma_skip_skip(line@, i1 as int, 1);
    }
    let (end, i2) = match parse_num_field(line, i1 + 1, 16) {
        Option::Some(p) => p,
        Option::None => {
            return Option::None;
        },
    };
    if end < base {
        return Option::None;
    }
    let ghost s2 = line@.skip(i2 as int);
    let i3 = skip_blanks(line, i2);
    let ghost s3 = line@.skip(i3 as int);
    if line.len() - i3 < 4 {
        return Option::None;
    }
    let rc = line[i3];
    let wc = line[i3 + 1];
    let xc = line[i3 + 2];
    let pc = line[i3 + 3];
    proof {
        assert(s3[0] == line@[i3 as int]);
        assert(s3[1] == line@[i3 as int + 1]);
        assert(s3[2] == line@[i3 as int + 2]);
        assert(s3[3] == line@[i3 as int + 3]);
    }
    if !((rc == 45 || rc == 114) && (wc == 45 || wc == 119) && (xc == 45 || xc == 120) && (pc == 45
        || pc == 115 || pc == 112)) {
        return Option::None;
    }
    let prot: i32 = (if rc == 114 {
        1i32
    } else {
        0i32
    }) + (if wc == 119 {
        2i32
    } else {
        0i32
    }) + (if xc == 120 {
        4i32
    } else {
        0i32
    });
    let flags: i32 = if pc == 112 {
        2i32
    } else if pc == 115 {
        1i32
    } else {
        0i32
    };
    proof {
        lemma_skip_skip(line@, i3 as int, 4);
    }
    let i4 = skip_blanks(line, i3 + 4);
    let (offset, i5) = match parse_num_field(line, i4, 16) {
        Option::Some(p) => p,
        Option::None => {
            return Option::None;
        },
    };
    let i6 = skip_blanks(line, i5);
    let ghost s6 = line@.skip(i6 as int);
    if line.len() - i6 < 5 {
        return Option::None;
    }
    proof {
        assert(s6[0] == line@[i6 as int]);
        assert(s6[1] == line@[i6 as int + 1]);
        assert(s6[2] == line@[i6 as int + 2]);
        assert(s6[3] == line@[i6 as int + 3]);
        assert(s6[4] == line@[i6 as int + 4]);
    }
    if !(is_hex_byte(line[i6]) && is_hex_byte(line[i6 + 1]) && line[i6 + 2] == 58 && is_hex_byte(
        line[i6 + 3],
    ) && is_hex_byte(line[i6 + 4])) {
        return Option::None;
    }
    let maj: u64 = digit_value(line[i6], 16) * 16 + digit_value(line[i6 + 1], 16);
    let min: u64 = digit_value(line[i6 + 3], 16) * 16 + digit_value(line[i6 + 4], 16);
    let devv: u64 = maj * 256 + min;
    let dev: i32 = devv as i32;
    proof {
        assert(devv <= 0xffff);
        lemma_skip_skip(line@, i6 as int, 5);
    }
    let i8 = skip_blanks(line, i6 + 5);
    let (inode, i9) = match parse_num_field(line, i8, 10) {
        Option::Some(p) => p,
        Option::None => {
            return Option::None;
        },
    };
    let i10 = skip_blanks(line, i9);
    let ghost s9 = line@.skip(i10 as int);
    let file: Option<Vec<u8>> = if i10 >= line.len() {
        Option::None
    } else {
        let rest = slice_subrange(line, i10, line.len());
        proof {
            assert(rest@ =~= s9);
        }
        Option::Some(slice_to_vec(rest))
    };
    let e = ProcMapsEntry { base, size: end - base, prot, flags, offset, dev, inode, file };
    Option::Some(e)
}

// ---------------------------------------------------------------------------
// Whole-file decoding
// ---------------------------------------------------------------------------

/// Index of the first newline byte, or the length when there is none.
pub open spec fn nl_pos(s: Seq<u8>) -> nat
    decreases s.len(),
{
    if s.len() > 0 && s[0] != 10 {
        (1 + nl_pos(s.drop_first())) as nat
    } else {
        0
    }
}

/// A line with a trailing carriage return loses it.
pub open spec fn strip_cr(l: Seq<u8>) -> Seq<u8> {
    if l.len() > 0 && l[l.len() - 1] == 13 {
        l.drop_last()
    } else {
        l
    }
}

/// The first newline lies within the string, on a newline byte.
proof fn lemma_nl_pos_props(s: Seq<u8>)
    ensures
        nl_pos(s) <= s.len(),
        nl_pos(s) < s.len() ==> s[nl_pos(s) as int] == 10,
    decreases s.len(),
{
    if s.len() > 0 && s[0] != 10 {
        lemma_nl_pos_props(s.drop_first());
        assert(s.drop_first() =~= s.skip(1));
        let l = nl_pos(s);
        if l < s.len() {
            assert(s[l as int] == s.skip(1)[l - 1]);
        }
    }
}

/// The lines of a text, split at newlines, each without a trailing carriage
/// return, with no line after a terminating newline.
pub open spec fn spec_lines(s: Seq<u8>) -> Seq<Seq<u8>>
    decreases s.len(),
    via spec_lines_dec
{
    if s.len() == 0 {
        Seq::empty()
    } else {
        let p = nl_pos(s);
        if p == s.len() {
            seq![strip_cr(s)]
        } else {
            seq![strip_cr(s.take(p as int))] + spec_lines(s.skip(p as int + 1))
        }
    }
}

#[via_fn]
proof fn spec_lines_dec(s: Seq<u8>) {
    lemma_nl_pos_props(s);
}

/// The entries of a sequence of lines, in order, dropping lines the grammar
/// rejects.
pub open spec fn spec_decode_lines(ls: Seq<Seq<u8>>) -> Seq<MapEntryV>
    decreases ls.len(),
{
    if ls.len() == 0 {
        Seq::empty()
    } else {
        (match spec_parse_line(ls[0]) {
            Option::Some(v) => seq![v],
            Option::None => Seq::<MapEntryV>::empty(),
        }) + spec_decode_lines(ls.drop_first())
    }
}

/// The entries of a whole memory-map text.
pub open spec fn spec_decode(text: Seq<u8>) -> Seq<MapEntryV> {
    spec_decode_lines(spec_lines(text))
}

/// Index of the first newline at or after `i`.
fn find_newline(text: &[u8], i: usize) -> (r: usize)
    requires
        i <= text@.len(),
    ensures
        i <= r <= text@.len(),
        r - i == nl_pos(text@.skip(i as int)),
        r < text@.len() ==> text@[r as int] == 10,
{
    let mut j: usize = i;
    while j < text.len() && text[j] != 10
        invariant
            i <= j <= text@.len(),
            nl_pos(text@.skip(i as int)) == j - i + nl_pos(text@.skip(j as int)),
        decreases text@.len() - j,
    {
        proof {
            let sj = text@.skip(j as int);
            assert(sj[0] == text@[j as int]);
            assert(sj.drop_first() =~= text@.skip(j as int + 1));
        }
        j = j + 1;
    }
    proof {
        let sj = text@.skip(j as int);
        if j < text@.len() {
            assert(sj[0] == text@[j as int]);
        }
        assert(nl_pos(sj) == 0);
    }
    j
}

/// Decode a whole memory-map text: parse every line and keep the entries of
/// the lines that match the grammar, in order.  A malformed line is dropped;
/// the rest of the map is still returned.
#[verifier::rlimit(100)]
#[verifier::spinoff_prover]
pub fn decode_proc_maps(text: &[u8]) -> (r: Vec<ProcMapsEntry>)
    ensures
        r@.map_values(|e: ProcMapsEntry| e@) == spec_decode(text@),
{
    let mut out: Vec<ProcMapsEntry> = Vec::new();
    let mut pos: usize = 0;
    let ghost full = spec_decode_lines(spec_lines(text@));
    proof {
        assert(text@.skip(0) =~= text@);
        assert(out@.map_values(|e: ProcMapsEntry| e@) =~= Seq::<MapEntryV>::empty());
        assert(Seq::<MapEntryV>::empty() + full =~= full);
    }
    while pos < text.len()
        invariant
            pos <= text@.len(),
            full == spec_decode_lines(spec_lines(text@)),
            full == out@.map_values(|e: ProcMapsEntry| e@) + spec_decode_lines(
                spec_lines(text@.skip(pos as int)),
            ),
        decreases text@.len() - pos,
    {
        let ghost su = text@.skip(pos as int);
        let p = find_newline(text, pos);
        // the segment of this line, without a trailing carriage return
        let segend: usize = if p > pos && text[p - 1] == 13 {
            p - 1
        } else {
            p
        };
        let seg = slice_subrange(text, pos, segend);
        proof {
            assert(su.len() > 0);
            let ghost lnraw = if p - pos == su.len() {
                su
            } else {
                su.take((p - pos) as int)
            };
            assert(su.take((p - pos) as int) =~= text@.subrange(pos as int, p as int));
            if p - pos == su.len() {
                assert(su =~= text@.subrange(pos as int, p as int));
            }
            assert(seg@ =~= strip_cr(lnraw));
        }
        let ent = parse_proc_maps_entry(seg);
        let ghost got: bool = ent is Some;
        let ghost out_pre = out@;
        match ent {
            Option::Some(e) => {
                out.push(e);
                proof {
                    assert(out@.map_values(|e2: ProcMapsEntry| e2@) =~= out_pre.map_values(
                        |e2: ProcMapsEntry| e2@,
                    ).push(spec_parse_line(seg@)->0));
                }
            },
            Option::None => {},
        }
        proof {
            let p0 = nl_pos(su);
            assert(p0 == p - pos);
            if p < text@.len() {
                let rest = su.skip(p0 as int + 1);
                assert(spec_lines(su) == seq![strip_cr(su.take(p0 as int))] + spec_lines(rest));
                assert(spec_lines(su)[0] == strip_cr(su.take(p0 as int)));
                assert(spec_lines(su).drop_first() =~= spec_lines(rest));
                assert(rest =~= text@.skip(pos as int + p0 + 1));
            } else {
                assert(p0 == su.len());
                assert(spec_lines(su) == seq![strip_cr(su)]);
                assert(spec_lines(su).drop_first() =~= Seq::<Seq<u8>>::empty());
            }
            // one unfolding of the decoded suffix
            assert(spec_decode_lines(spec_lines(su)) == (match spec_parse_line(seg@) {
                Option::Some(v) => seq![v],
                Option::None => Seq::<MapEntryV>::empty(),
            }) + spec_decode_lines(spec_lines(su).drop_first()));
            if got {
                lemma_add_assoc_entries(
                    out_pre.map_values(|e2: ProcMapsEntry| e2@),
                    seq![spec_parse_line(seg@)->0],
                    spec_decode_lines(spec_lines(su).drop_first()),
                );
                assert(out_pre.map_values(|e2: ProcMapsEntry| e2@) + seq![
                    spec_parse_line(seg@)->0,
                ] =~= out@.map_values(|e2: ProcMapsEntry| e2@));
            } else {
                assert((Seq::<MapEntryV>::empty() + spec_decode_lines(
                    spec_lines(su).drop_first(),
                )) =~= spec_decode_lines(spec_lines(su).drop_first()));
            }
        }
        if p >= text.len() {
            pos = text.len();
            proof {
                assert(spec_lines(text@.skip(pos as int)) =~= Seq::<Seq<u8>>::empty());
            }
        } else {
            pos = p + 1;
        }
    }
    proof {
        assert(spec_lines(text@.skip(pos as int)) =~= Seq::<Seq<u8>>::empty());
        assert(full =~= out@.map_values(|e: ProcMapsEntry| e@));
    }
    out
}

proof fn lemma_add_assoc_entries(a: Seq<MapEntryV>, b: Seq<MapEntryV>, c: Seq<MapEntryV>)
    ensures
        (a + b) + c == a + (b + c),
{
    assert((a + b) + c =~= a + (b + c));
}

/// The text of a whole map: every entry's canonical line, each followed by a
/// newline.
pub open spec fn spec_show_maps(vs: Seq<MapEntryV>) -> Seq<u8>
    decreases vs.len(),
{
    if vs.len() == 0 {
        Seq::empty()
    } else {
        spec_format_entry(vs[0]) + seq![10u8] + spec_show_maps(vs.drop_first())
    }
}

/// Render a decoded map, one canonical line per entry.
pub fn pretty_show_maps(ents: &Vec<ProcMapsEntry>) -> (r: Vec<u8>)
    requires
        forall|k: int| 0 <= k < ents@.len() ==> entry_wf(#[trigger] ents@[k]@),
    ensures
        r@ == spec_show_maps(ents@.map_values(|e: ProcMapsEntry| e@)),
{
    let ghost vs = ents@.map_values(|e: ProcMapsEntry| e@);
    let mut out: Vec<u8> = Vec::new();
    let mut k: usize = 0;
    proof {
        assert(vs.skip(0) =~= vs);
        assert(Seq::<u8>::empty() + spec_show_maps(vs) =~= spec_show_maps(vs));
    }
    while k < ents.len()
        invariant
            k <= ents@.len(),
            vs == ents@.map_values(|e: ProcMapsEntry| e@),
            forall|m: int| 0 <= m < ents@.len() ==> entry_wf(#[trigger] ents@[m]@),
            spec_show_maps(vs) == out@ + spec_show_maps(vs.skip(k as int)),
        decreases ents@.len() - k,
    {
        let ghost out_pre = out@;
        let line = ents[k].show();
        push_all(&mut out, line.as_slice());
        out.push(10);
        proof {
            let tail = vs.skip(k as int);
            assert(tail[0] == vs[k as int]);
            assert(tail.drop_first() =~= vs.skip(k as int + 1));
            assert(spec_show_maps(tail) == spec_format_entry(vs[k as int]) + seq![10u8]
                + spec_show_maps(vs.skip(k as int + 1)));
            assert(out@ =~= out_pre + (spec_format_entry(vs[k as int]) + seq![10u8]));
            lemma_add_assoc(
                out_pre,
                spec_format_entry(vs[k as int]) + seq![10u8],
                spec_show_maps(vs.skip(k as int + 1)),
            );
            lemma_add_assoc(
                spec_format_entry(vs[k as int]),
                seq![10u8],
                spec_show_maps(vs.skip(k as int + 1)),
            );
        }
        k = k + 1;
    }
    proof {
        assert(vs.skip(vs.len() as int) =~= Seq::<MapEntryV>::empty());
        assert(out@ + Seq::<u8>::empty() =~= out@);
    }
    out
}

// ---------------------------------------------------------------------------
// Task state from the status file
// ---------------------------------------------------------------------------

/// Scheduling state of a kernel task, as the one-letter code of its status
/// file reports it (kernel 3.13 and later).
#[derive(Clone, Copy, Debug, PartialEq, Eq, Structural)]
pub enum LinuxTaskState {
    /// `R`: running or runnable.
    Running,
    /// `S`: interruptible sleep.
    SleepInterruptible,
    /// `D`: uninterruptible sleep.
    SleepUninterruptible,
    /// `Z`: zombie.
    Zombine,
    /// `T`: stopped by a signal.
    Stopped,
    /// `t`: stopped by a tracer.
    Ptraced,
    /// `X`: dead.
    Dead,
}

/// Length of the leading run of non-blank bytes.
pub open spec fn nonblank_prefix_len(s: Seq<u8>) -> nat
    decreases s.len(),
{
    if s.len() > 0 && !is_blank_b(s[0]) {
        (1 + nonblank_prefix_len(s.drop_first())) as nat
    } else {
        0
    }
}

/// The second whitespace-separated field of a line.
pub open spec fn spec_second_field(l: Seq<u8>) -> Seq<u8> {
    let a = sp_blanks(l);
    let b = a.skip(nonblank_prefix_len(a) as int);
    let c = sp_blanks(b);
    c.take(nonblank_prefix_len(c) as int)
}

/// The task state named by a one-letter state field; `None` for any other
/// field.
pub open spec fn state_of_field(f: Seq<u8>) -> Option<LinuxTaskState> {
    if f == seq![82u8] {
        Option::Some(LinuxTaskState::Running)
    } else if f == seq![83u8] {
        Option::Some(LinuxTaskState::SleepInterruptible)
    } else if f == seq![68u8] {
        Option::Some(LinuxTaskState::SleepUninterruptible)
    } else if f == seq![84u8] {
        Option::Some(LinuxTaskState::Stopped)
    } else if f == seq![116u8] {
        Option::Some(LinuxTaskState::Ptraced)
    } else if f == seq![88u8] {
        Option::Some(LinuxTaskState::Dead)
    } else if f == seq![90u8] {
        Option::Some(LinuxTaskState::Zombine)
    } else {
        Option::None
    }
}

/// The task state reported by a status text: the second field of its third
/// line, when that field is one of the state letters.
pub open spec fn spec_task_state(text: Seq<u8>) -> Option<LinuxTaskState> {
    let ls = spec_lines(text);
    if ls.len() < 3 {
        Option::None
    } else {
        state_of_field(spec_second_field(ls[2]))
    }
}

/// Index just past the non-blank bytes that start at `i`.
fn skip_nonblanks(line: &[u8], i: usize) -> (r: usize)
    requires
        i <= line@.len(),
    ensures
        i <= r <= line@.len(),
        r - i == nonblank_prefix_len(line@.skip(i as int)),
        line@.skip(r as int) == line@.skip(i as int).skip(
            nonblank_prefix_len(line@.skip(i as int)) as int,
        ),
{
    let mut j: usize = i;
    while j < line.len() && line[j] != 32 && line[j] != 9
        invariant
            i <= j <= line@.len(),
            nonblank_prefix_len(line@.skip(i as int)) == j - i + nonblank_prefix_len(
                line@.skip(j as int),
            ),
        decreases line@.len() - j,
    {
        proof {
            let sj = line@.skip(j as int);
            assert(sj[0] == line@[j as int]);
            assert(sj.drop_first() =~= line@.skip(j as int + 1));
        }
        j = j + 1;
    }
    proof {
        let sj = line@.skip(j as int);
        if j < line@.len() {
            assert(sj[0] == line@[j as int]);
        }
        assert(nonblank_prefix_len(sj) == 0);
        lemma_skip_skip(line@, i as int, (j - i) as int);
    }
    j
}

/// Read a task state from a status text, as [`spec_task_state`]: the second
/// field of the third line must be one of the seven state letters, else
/// `None`.
#[verifier::rlimit(100)]
#[verifier::spinoff_prover]
pub fn proc_get_task_state(text: &[u8]) -> (r: Option<LinuxTaskState>)
    ensures
        r == spec_task_state(text@),
{
    proof {
        assert(text@.skip(0) =~= text@);
    }
    if text.len() == 0 {
        return Option::None;
    }
    let p0 = find_newline(text, 0);
    if p0 >= text.len() {
        return Option::None;
    }
    let pos1 = p0 + 1;
    let ghost su1 = text@.skip(pos1 as int);
    proof {
        assert(spec_lines(text@) == seq![strip_cr(text@.take(p0 as int))] + spec_lines(su1));
    }
    if pos1 >= text.len() {
        proof {
            assert(su1.len() == 0);
        }
        return Option::None;
    }
    let p1 = find_newline(text, pos1);
    proof {
        assert(nl_pos(su1) == p1 - pos1);
    }
    if p1 >= text.len() {
        proof {
            assert(nl_pos(su1) == su1.len());
            assert(spec_lines(su1) == seq![strip_cr(su1)]);
        }
        return Option::None;
    }
    let pos2 = p1 + 1;
    let ghost su2 = text@.skip(pos2 as int);
    proof {
        assert(su2 =~= su1.skip((p1 - pos1) as int + 1));
        assert(spec_lines(su1) == seq![strip_cr(su1.take((p1 - pos1) as int))] + spec_lines(su2));
    }
    if pos2 >= text.len() {
        proof {
            assert(su2.len() == 0);
        }
        return Option::None;
    }
    let p2 = find_newline(text, pos2);
    let segend: usize = if p2 > pos2 && text[p2 - 1] == 13 {
        p2 - 1
    } else {
        p2
    };
    let seg = slice_subrange(text, pos2, segend);
    proof {
        assert(su2.len() > 0);
        let p = nl_pos(su2);
        assert(p == p2 - pos2);
        if p2 < text@.len() {
            assert(su2.take(p as int) =~= text@.subrange(pos2 as int, p2 as int));
            assert(spec_lines(su2)[0] == strip_cr(su2.take(p as int)));
        } else {
            assert(su2 =~= text@.subrange(pos2 as int, p2 as int));
            assert(spec_lines(su2)[0] == strip_cr(su2));
        }
        assert(seg@ =~= strip_cr(spec_lines(su2)[0]) || seg@ =~= spec_lines(su2)[0]);
        assert(seg@ == strip_cr(if p == su2.len() {
            su2
        } else {
            su2.take(p as int)
        }));
        assert(spec_lines(text@).len() >= 3);
        assert(spec_lines(text@)[2] == spec_lines(su2)[0]);
        assert(seg@ == spec_lines(text@)[2]);
    }
    // the second whitespace-separated field of the third line
    let i = skip_blanks(seg, 0);
    let j = skip_nonblanks(seg, i);
    let k2 = skip_blanks(seg, j);
    let m = skip_nonblanks(seg, k2);
    let ghost fld = spec_second_field(seg@);
    proof {
        assert(seg@.skip(0) =~= seg@);
        let a = sp_blanks(seg@);
        assert(seg@.skip(i as int) == a);
        let b = a.skip(nonblank_prefix_len(a) as int);
        assert(seg@.skip(j as int) == b);
        let c = sp_blanks(b);
        assert(seg@.skip(k2 as int) == c);
        assert(m - k2 == nonblank_prefix_len(c));
        assert(fld == c.take(nonblank_prefix_len(c) as int));
        assert(fld =~= seg@.subrange(k2 as int, m as int));
    }
    if m - k2 != 1 {
        proof {
            assert(fld.len() != 1);
        }
        return Option::None;
    }
    let letter = seg[k2];
    proof {
        assert(fld.len() == 1 && fld[0] == letter);
        assert(fld =~= seq![letter]);
    }
    if letter == 82 {
        Option::Some(LinuxTaskState::Running)
    } else if letter == 83 {
        Option::Some(LinuxTaskState::SleepInterruptible)
    } else if letter == 68 {
        Option::Some(LinuxTaskState::SleepUninterruptible)
    } else if letter == 84 {
        Option::Some(LinuxTaskState::Stopped)
    } else if letter == 116 {
        Option::Some(LinuxTaskState::Ptraced)
    } else if letter == 88 {
        Option::Some(LinuxTaskState::Dead)
    } else if letter == 90 {
        Option::Some(LinuxTaskState::Zombine)
    } else {
        proof {
            assert(fld != seq![82u8] && fld != seq![83u8] && fld != seq![68u8] && fld != seq![84u8]
                && fld != seq![116u8] && fld != seq![88u8] && fld != seq![90u8]);
        }
        Option::None
    }
}

} // verus!
