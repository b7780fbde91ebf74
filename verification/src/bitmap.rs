use vstd::prelude::*;

use crate::error::MyError;
use crate::index::{decode, spec_decode, HierarchicalIndex};

verus! {

use vstd::arithmetic::div_mod::{
    lemma_fundamental_div_mod, lemma_fundamental_div_mod_converse, lemma_mod_pos_bound,
};

/// Number of distinct level-9 descendants of one resolution-5 cell:
/// four levels with branching factor 7, so 7 * 7 * 7 * 7 = 2401 positions,
/// with offsets 0 to 2400.
pub const DESCENDANT_COUNT: usize = 2401;

/// Bytes needed to hold one bit per descendant: ceil(2401 / 8).
pub const BITMAP_BYTES: usize = 301;

/// True when every digit of `h` selects a real child (0 to 6; the value 7
/// is reserved in the indexing scheme).
pub open spec fn digits_in_range(h: HierarchicalIndex) -> bool {
    h.digit6 < 7 && h.digit7 < 7 && h.digit8 < 7 && h.digit9 < 7
}

/// The dense mixed-radix offset of a digit tuple: the four digits read as a
/// base-7 numeral, level 6 most significant.
pub open spec fn spec_offset(h: HierarchicalIndex) -> int {
    h.digit6 * 343 + h.digit7 * 49 + h.digit8 * 7 + h.digit9
}

/// True when logical bit `off` is set in `bytes`.
pub open spec fn bit_is_set(bytes: Seq<u8>, off: int) -> bool
    recommends
        0 <= off,
        off / 8 < bytes.len(),
{
    bytes[off / 8] & (1u8 << ((off % 8) as u8)) != 0
}

/// `bytes` with logical bit `off` set.
pub open spec fn mark_bit(bytes: Seq<u8>, off: int) -> Seq<u8>
    recommends
        0 <= off,
        off / 8 < bytes.len(),
{
    bytes.update(off / 8, bytes[off / 8] | (1u8 << ((off % 8) as u8)))
}

/// The offset of every in-range digit tuple lies in [0, 2400].
pub proof fn lemma_offset_range(h: HierarchicalIndex)
    requires
        digits_in_range(h),
    ensures
        0 <= spec_offset(h) < DESCENDANT_COUNT,
{
}

/// The offset mapping is injective over in-range digit tuples: two tuples
/// with the same offset have the same four digits, so no two structurally
/// distinct tuples collide in the bitmap.
pub proof fn lemma_offset_injective(a: HierarchicalIndex, b: HierarchicalIndex)
    requires
        digits_in_range(a),
        digits_in_range(b),
        spec_offset(a) == spec_offset(b),
    ensures
        a.digit6 == b.digit6,
        a.digit7 == b.digit7,
        a.digit8 == b.digit8,
        a.digit9 == b.digit9,
{
    let off = spec_offset(a);
    // Peel the base-7 digits off one level at a time: each step divides by 7.
    let qa1 = a.digit6 * 49 + a.digit7 * 7 + a.digit8;
    let qb1 = b.digit6 * 49 + b.digit7 * 7 + b.digit8;
    assert(off == qa1 * 7 + a.digit9);
    assert(off == qb1 * 7 + b.digit9);
    lemma_fundamental_div_mod_converse(off, 7, qa1, a.digit9 as int);
    lemma_fundamental_div_mod_converse(off, 7, qb1, b.digit9 as int);
    let qa2 = a.digit6 * 7 + a.digit7;
    let qb2 = b.digit6 * 7 + b.digit7;
    assert(qa1 == qa2 * 7 + a.digit8);
    assert(qb1 == qb2 * 7 + b.digit8);
    lemma_fundamental_div_mod_converse(qa1, 7, qa2, a.digit8 as int);
    lemma_fundamental_div_mod_converse(qb1, 7, qb2, b.digit8 as int);
    lemma_fundamental_div_mod_converse(qa2, 7, a.digit6 as int, a.digit7 as int);
    lemma_fundamental_div_mod_converse(qb2, 7, b.digit6 as int, b.digit7 as int);
}

/// The offset mapping covers all of [0, 2400]: every position of the bitmap
/// corresponds to some in-range digit tuple.
pub proof fn lemma_offset_covers(off: int)
    requires
        0 <= off < DESCENDANT_COUNT,
    ensures
        exists|h: HierarchicalIndex| digits_in_range(h) && spec_offset(h) == off,
{
    lemma_fundamental_div_mod(off, 7);
    lemma_mod_pos_bound(off, 7);
    let q1 = off / 7;
    let r1 = off % 7;
    lemma_fundamental_div_mod(q1, 7);
    lemma_mod_pos_bound(q1, 7);
    let q2 = q1 / 7;
    let r2 = q1 % 7;
    lemma_fundamental_div_mod(q2, 7);
    lemma_mod_pos_bound(q2, 7);
    let q3 = q2 / 7;
    let r3 = q2 % 7;
    let w = HierarchicalIndex {
        mode_tag: 8,
        resolution: 9,
        digit6: q3 as u8,
        digit7: r3 as u8,
        digit8: r2 as u8,
        digit9: r1 as u8,
    };
    assert(digits_in_range(w));
    assert(spec_offset(w) == off);
}

/// Setting one bit of a byte leaves it set and touches no other bit.
proof fn lemma_byte_set_bit(b: u8, k: u8, m: u8)
    by (bit_vector)
    requires
        k < 8,
        m < 8,
    ensures
        (b | (1u8 << k)) & (1u8 << k) != 0,
        m != k ==> ((b | (1u8 << k)) & (1u8 << m)) == (b & (1u8 << m)),
{
}

/// No bit is set in a zero byte.
proof fn lemma_zero_byte_no_bits(k: u8)
    by (bit_vector)
    requires
        k < 8,
    ensures
        0u8 & (1u8 << k) == 0,
{
}

/// Marking one coverage bit is monotonic: the marked bit is set afterwards,
/// every other bit keeps its prior state, and bits already set stay set.
pub proof fn lemma_mark_bit_monotonic(bytes: Seq<u8>, off: int, other: int)
    requires
        bytes.len() == BITMAP_BYTES,
        0 <= off < DESCENDANT_COUNT,
        0 <= other < DESCENDANT_COUNT,
    ensures
        mark_bit(bytes, off).len() == bytes.len(),
        bit_is_set(mark_bit(bytes, off), off),
        other != off ==> bit_is_set(mark_bit(bytes, off), other) == bit_is_set(bytes, other),
{
    let k = (off % 8) as u8;
    let m = (other % 8) as u8;
    lemma_byte_set_bit(bytes[off / 8], k, m);
    if other != off && other / 8 == off / 8 {
        // Same byte but distinct bits: equal quotients and equal remainders
        // would make the offsets equal.
        assert(off == 8 * (off / 8) + off % 8);
        assert(other == 8 * (other / 8) + other % 8);
        assert(m != k);
    }
}

/// The coverage record of one resolution-5 ancestor cell, per reporter:
/// one bit for each of its 2401 possible level-9 descendants.  Bits are only
/// ever set, never cleared: coverage is monotonic.
pub struct Hexbitmap {
    /// Identity of the resolution-5 region this bitmap tracks.
    pub parent_hex: String,
    /// Identity of the reporting device, so the same region can be tracked
    /// independently per reporter.
    pub deveui: String,
    /// The bit array, one logical bit per descendant, little-endian within
    /// each byte.
    pub children: Vec<u8>,
}

impl Hexbitmap {
    /// The bit array has exactly the bytes needed for 2401 bits.
    pub open spec fn wf(&self) -> bool {
        self.children@.len() == BITMAP_BYTES
    }

    /// Creates the coverage record for one (ancestor, reporter) pair with
    /// every descendant still uncovered.
    pub fn new(parent_hex: String, deveui: String) -> (r: Hexbitmap)
        ensures
            r.wf(),
            r.parent_hex == parent_hex,
            r.deveui == deveui,
            forall|off: int|
                0 <= off < DESCENDANT_COUNT ==> !bit_is_set(r.children@, off),
    {
        let mut children: Vec<u8> = Vec::new();
        let mut i: usize = 0;
        while i < BITMAP_BYTES
            invariant
                i <= BITMAP_BYTES,
                children@.len() == i,
                forall|j: int| 0 <= j < i ==> children@[j] == 0u8,
            decreases BITMAP_BYTES - i,
        {
            children.push(0u8);
            i = i + 1;
        }
        let r = Hexbitmap { parent_hex, deveui, children };
        proof {
            assert forall|off: int|
                0 <= off < DESCENDANT_COUNT implies !bit_is_set(r.children@, off) by {
                lemma_zero_byte_no_bits((off % 8) as u8);
            }
        }
        r
    }

    /// Records one sensor report: decodes `new_res9`, derives the dense
    /// offset of the reported level-9 descendant, and sets its bit.  Fails
    /// with the decoder's error on a malformed index, with `InvalidCell` when
    /// a digit is the reserved value 7, and with `HexMapped` when the bit is
    /// already set.  On any failure the bitmap is unchanged.
    pub fn modify_hexbitmap(&mut self, new_res9: &str) -> (r: Result<(), MyError>)
        requires
            old(self).wf(),
        ensures
            final(self).wf(),
            final(self).parent_hex == old(self).parent_hex,
            final(self).deveui == old(self).deveui,
            (match spec_decode(new_res9@) {
                Err(e) => r == Err::<(), MyError>(e)
                    && final(self).children@ == old(self).children@,
                Ok(h) => {
                    if !digits_in_range(h) {
                        r == Err::<(), MyError>(MyError::InvalidCell)
                            && final(self).children@ == old(self).children@
                    } else if bit_is_set(old(self).children@, spec_offset(h)) {
                        r == Err::<(), MyError>(MyError::HexMapped)
                            && final(self).children@ == old(self).children@
                    } else {
                        r == Ok::<(), MyError>(())
                            && final(self).children@
                                == mark_bit(old(self).children@, spec_offset(h))
                    }
                },
            }),
            // Coverage is monotonic: a bit set before the call is set after it.
            forall|off: int|
                0 <= off < DESCENDANT_COUNT && bit_is_set(old(self).children@, off)
                    ==> bit_is_set(final(self).children@, off),
    {
        let h = match decode(new_res9) {
            Ok(h) => h,
            Err(e) => {
                return Err(e);
            },
        };
        if h.digit6 >= 7 || h.digit7 >= 7 || h.digit8 >= 7 || h.digit9 >= 7 {
            return Err(MyError::InvalidCell);
        }
        let offset: u16 =
            h.digit6 as u16 * 343 + h.digit7 as u16 * 49 + h.digit8 as u16 * 7 + h.digit9 as u16;
        let byte_index: usize = (offset / 8) as usize;
        let shift: u8 = (offset % 8) as u8;
        let bit_mask: u8 = 1u8 << shift;
        let existing: u8 = self.children[byte_index];
        if existing & bit_mask != 0 {
            return Err(MyError::HexMapped);
        }
        self.children.set(byte_index, existing | bit_mask);
        proof {
            assert(self.children@ == mark_bit(old(self).children@, spec_offset(h)));
            assert forall|off: int|
                0 <= off < DESCENDANT_COUNT && bit_is_set(old(self).children@, off)
                    implies bit_is_set(self.children@, off) by {
                lemma_mark_bit_monotonic(old(self).children@, spec_offset(h), off);
            }
        }
        Ok(())
    }
}

} // verus!
