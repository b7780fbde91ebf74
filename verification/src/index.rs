use vstd::prelude::*;

use crate::error::MyError;
use crate::hexnum::{
    all_hex_digits, hex_value, lemma_all_hex_prepend_zero, lemma_hex_value_bound,
    lemma_hex_value_prepend_zero, parse_hex_u32, pow16,
};

verus! {

/// The validated structural descriptor of one H3 cell index: its mode byte,
/// its resolution, and the child-selector digits at hierarchy levels 6 to 9,
/// read from the lower 32 bits of the raw index.
#[derive(Clone, Copy, Debug, PartialEq, Eq, Structural)]
pub struct HierarchicalIndex {
    /// Mode byte of the index; always decimal 8 after a successful decode
    /// (reserved bit 0, index mode 1, mode-dependent field 0).
    pub mode_tag: u8,
    /// Resolution field, 0 to 15; always at least 9 after a successful
    /// decode.  Precision beyond level 9 is discarded, not an error.
    pub resolution: u8,
    /// Child selector at level 6, a 3-bit value.
    pub digit6: u8,
    /// Child selector at level 7, a 3-bit value.
    pub digit7: u8,
    /// Child selector at level 8, a 3-bit value.
    pub digit8: u8,
    /// Child selector at level 9, a 3-bit value.
    pub digit9: u8,
}

/// A 15-character index with its implicit leading zero nibble restored;
/// a 16-character index unchanged.
pub open spec fn padded(s: Seq<char>) -> Seq<char> {
    if s.len() == 15 {
        seq!['0'] + s
    } else {
        s
    }
}

/// The upper eight hex characters of the padded index: bits 63 to 32.
pub open spec fn high_half(s: Seq<char>) -> Seq<char>
    recommends
        s.len() == 15 || s.len() == 16,
{
    padded(s).subrange(0, 8)
}

/// The lower eight hex characters of the padded index: bits 31 to 0.
pub open spec fn low_half(s: Seq<char>) -> Seq<char>
    recommends
        s.len() == 15 || s.len() == 16,
{
    padded(s).subrange(8, 16)
}

/// The mode byte: bits 31 to 24 of the upper word.
pub open spec fn mode_byte(hv: u32) -> u32 {
    (hv >> 24) & 0xFF
}

/// The resolution field: bits 23 to 20 of the upper word.
pub open spec fn resolution_field(hv: u32) -> u32 {
    (hv >> 20) & 0xF
}

/// The 12-bit field of the lower word spanning the digit triplets for
/// hierarchy levels 9, 8, 7 and 6 (level 9 least significant).
pub open spec fn digit_field(lv: u32) -> u32 {
    (lv >> 18) & 0xFFF
}

/// What `decode` returns for a raw index with view `s`, checked in order:
/// the length must be 15 or 16; the upper word must be hexadecimal with mode
/// byte 8; the resolution must be at least 9; the lower word must be
/// hexadecimal.  The digits are then read from the 12-bit field of the lower
/// word.
pub open spec fn spec_decode(s: Seq<char>) -> Result<HierarchicalIndex, MyError> {
    if s.len() != 15 && s.len() != 16 {
        Err(MyError::InvalidCell)
    } else if !all_hex_digits(high_half(s)) {
        Err(MyError::InvalidCell)
    } else {
        let hv = hex_value(high_half(s)) as u32;
        if mode_byte(hv) != 8 {
            Err(MyError::InvalidCell)
        } else if resolution_field(hv) < 9 {
            Err(MyError::IncorrectRes9)
        } else if !all_hex_digits(low_half(s)) {
            Err(MyError::InvalidCell)
        } else {
            let b = digit_field(hex_value(low_half(s)) as u32);
            Ok(HierarchicalIndex {
                mode_tag: 8,
                resolution: resolution_field(hv) as u8,
                digit6: ((b >> 9) & 0x7) as u8,
                digit7: ((b >> 6) & 0x7) as u8,
                digit8: ((b >> 3) & 0x7) as u8,
                digit9: (b & 0x7) as u8,
            })
        }
    }
}

/// Parses a raw hierarchical cell index into a validated structural
/// descriptor.  A 15-character index is treated as if left-padded with one
/// leading `'0'`; any other length than 15 or 16 is rejected.  The mode byte
/// must equal decimal 8 and the resolution must be at least 9.
pub fn decode(raw: &str) -> (r: Result<HierarchicalIndex, MyError>)
    ensures
        r == spec_decode(raw@),
{
    let n = raw.unicode_len();
    if n != 15 && n != 16 {
        return Err(MyError::InvalidCell);
    }
    // For a 15-character index the implicit leading zero nibble contributes
    // nothing to the value of the upper word.
    let high_len: usize = if n == 15 { 7 } else { 8 };
    proof {
        if n == 15 {
            assert(padded(raw@) =~= seq!['0'] + raw@);
            assert(high_half(raw@) =~= seq!['0'] + raw@.subrange(0, 7));
            lemma_hex_value_prepend_zero(raw@.subrange(0, 7));
            lemma_all_hex_prepend_zero(raw@.subrange(0, 7));
        } else {
            assert(high_half(raw@) =~= raw@.subrange(0, 8));
        }
    }
    let hv = match parse_hex_u32(raw, 0, high_len) {
        Some(v) => v,
        None => {
            return Err(MyError::InvalidCell);
        },
    };
    proof {
        lemma_hex_value_bound(high_half(raw@));
        assert(pow16(8) == 0x1_0000_0000) by {
            reveal_with_fuel(pow16, 9);
        }
        assert(hv == hex_value(high_half(raw@)) as u32);
    }
    if (hv >> 24) & 0xFF != 8 {
        return Err(MyError::InvalidCell);
    }
    let resolution = (hv >> 20) & 0xF;
    if resolution < 9 {
        return Err(MyError::IncorrectRes9);
    }
    let low_start: usize = if n == 15 { 7 } else { 8 };
    proof {
        if n == 15 {
            assert(low_half(raw@) =~= raw@.subrange(7, 15));
        } else {
            assert(low_half(raw@) =~= raw@.subrange(8, 16));
        }
    }
    let lv = match parse_hex_u32(raw, low_start, 8) {
        Some(v) => v,
        None => {
            return Err(MyError::InvalidCell);
        },
    };
    proof {
        lemma_hex_value_bound(low_half(raw@));
        assert(pow16(8) == 0x1_0000_0000) by {
            reveal_with_fuel(pow16, 9);
        }
        assert(lv == hex_value(low_half(raw@)) as u32);
    }
    let b = (lv >> 18) & 0xFFF;
    Ok(HierarchicalIndex {
        mode_tag: 8,
        resolution: resolution as u8,
        digit6: ((b >> 9) & 0x7) as u8,
        digit7: ((b >> 6) & 0x7) as u8,
        digit8: ((b >> 3) & 0x7) as u8,
        digit9: (b & 0x7) as u8,
    })
}

/// Extracting the four digit triplets from their packed 12-bit field
/// recovers the digits that were packed into it.
proof fn lemma_pack_unpack(d6: u32, d7: u32, d8: u32, d9: u32)
    by (bit_vector)
    requires
        d6 < 8,
        d7 < 8,
        d8 < 8,
        d9 < 8,
    ensures
        (((d6 << 9) | (d7 << 6) | (d8 << 3) | d9) >> 9) & 0x7 == d6,
        (((d6 << 9) | (d7 << 6) | (d8 << 3) | d9) >> 6) & 0x7 == d7,
        (((d6 << 9) | (d7 << 6) | (d8 << 3) | d9) >> 3) & 0x7 == d8,
        ((d6 << 9) | (d7 << 6) | (d8 << 3) | d9) & 0x7 == d9,
{
}

/// Round-trip digit extraction: decoding any well-formed raw index whose
/// 12-bit digit field holds the triplets `(d6, d7, d8, d9)` at the
/// documented bit positions recovers exactly those four digits.
pub proof fn lemma_digit_round_trip(s: Seq<char>, d6: u8, d7: u8, d8: u8, d9: u8)
    requires
        s.len() == 15 || s.len() == 16,
        all_hex_digits(high_half(s)),
        all_hex_digits(low_half(s)),
        d6 < 7,
        d7 < 7,
        d8 < 7,
        d9 < 7,
        mode_byte(hex_value(high_half(s)) as u32) == 8,
        resolution_field(hex_value(high_half(s)) as u32) >= 9,
        digit_field(hex_value(low_half(s)) as u32)
            == ((d6 as u32) << 9) | ((d7 as u32) << 6) | ((d8 as u32) << 3) | (d9 as u32),
    ensures
        spec_decode(s) == Ok::<HierarchicalIndex, MyError>(HierarchicalIndex {
            mode_tag: 8,
            resolution: resolution_field(hex_value(high_half(s)) as u32) as u8,
            digit6: d6,
            digit7: d7,
            digit8: d8,
            digit9: d9,
        }),
{
    lemma_pack_unpack(d6 as u32, d7 as u32, d8 as u32, d9 as u32);
}

/// Length handling: a 15-character index and its 16-character zero-padded
/// equivalent decode to identical results.
pub proof fn lemma_zero_padding_equivalent(s: Seq<char>)
    requires
        s.len() == 15,
    ensures
        spec_decode(seq!['0'] + s) == spec_decode(s),
{
    let p = seq!['0'] + s;
    assert(padded(s) =~= p);
    assert(padded(p) =~= p);
}

/// Mode gate: an index whose mode byte is not decimal 8 fails with
/// `InvalidCell`, regardless of every other field.
pub proof fn lemma_mode_gate(s: Seq<char>)
    requires
        s.len() == 15 || s.len() == 16,
        all_hex_digits(high_half(s)),
        mode_byte(hex_value(high_half(s)) as u32) != 8,
    ensures
        spec_decode(s) == Err::<HierarchicalIndex, MyError>(MyError::InvalidCell),
{
}

/// Resolution gate: with a valid mode byte, a resolution below 9 fails with
/// `IncorrectRes9`; a resolution of 9 or more decodes successfully and is
/// reported unchanged (finer precision is truncated, not rejected).
pub proof fn lemma_resolution_gate(s: Seq<char>)
    requires
        s.len() == 15 || s.len() == 16,
        all_hex_digits(high_half(s)),
        mode_byte(hex_value(high_half(s)) as u32) == 8,
    ensures
        resolution_field(hex_value(high_half(s)) as u32) < 9
            ==> spec_decode(s) == Err::<HierarchicalIndex, MyError>(MyError::IncorrectRes9),
        resolution_field(hex_value(high_half(s)) as u32) >= 9 && all_hex_digits(low_half(s))
            ==> spec_decode(s) is Ok && spec_decode(s)->Ok_0.resolution
                == resolution_field(hex_value(high_half(s)) as u32) as u8,
{
}

} // verus!
