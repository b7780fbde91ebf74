use vstd::prelude::*;

verus! {

/// True when `c` is an ASCII hexadecimal digit, in either letter case.
pub open spec fn is_hex_digit(c: char) -> bool {
    ('0' <= c && c <= '9') || ('a' <= c && c <= 'f') || ('A' <= c && c <= 'F')
}

/// Numeric value of one hexadecimal digit.
pub open spec fn hex_digit_value(c: char) -> nat
    recommends
        is_hex_digit(c),
{
    if '0' <= c && c <= '9' {
        (c as u32 - '0' as u32) as nat
    } else if 'a' <= c && c <= 'f' {
        (c as u32 - 'a' as u32 + 10) as nat
    } else {
        (c as u32 - 'A' as u32 + 10) as nat
    }
}

/// True when every character of `s` is a hexadecimal digit.
pub open spec fn all_hex_digits(s: Seq<char>) -> bool {
    forall|i: int| 0 <= i < s.len() ==> is_hex_digit(#[trigger] s[i])
}

/// The value of `s` read as a big-endian base-16 numeral.
pub open spec fn hex_value(s: Seq<char>) -> nat
    recommends
        all_hex_digits(s),
    decreases s.len(),
{
    if s.len() == 0 {
        0
    } else {
        hex_value(s.drop_last()) * 16 + hex_digit_value(s.last())
    }
}

/// 16 to the power `n`.
pub open spec fn pow16(n: nat) -> nat
    decreases n,
{
    if n == 0 {
        1
    } else {
        16 * pow16((n - 1) as nat)
    }
}

/// `pow16` grows with its argument.
proof fn lemma_pow16_increases(a: nat, b: nat)
    requires
        a <= b,
    ensures
        pow16(a) <= pow16(b),
    decreases b,
{
    if a < b {
        lemma_pow16_increases(a, (b - 1) as nat);
    }
}

/// A base-16 numeral of `n` digits is below `pow16(n)`.
pub proof fn lemma_hex_value_bound(s: Seq<char>)
    requires
        all_hex_digits(s),
    ensures
        hex_value(s) < pow16(s.len()),
    decreases s.len(),
{
    if s.len() > 0 {
        assert(all_hex_digits(s.drop_last())) by {
            assert(forall|i: int|
                0 <= i < s.len() - 1 ==> s.drop_last()[i] == #[trigger] s[i]);
        }
        lemma_hex_value_bound(s.drop_last());
        assert(is_hex_digit(s.last()));
        assert(hex_digit_value(s.last()) < 16);
    }
}

/// A leading zero digit does not change the value of a numeral.
pub proof fn lemma_hex_value_prepend_zero(s: Seq<char>)
    ensures
        hex_value(seq!['0'] + s) == hex_value(s),
    decreases s.len(),
{
    if s.len() == 0 {
        assert((seq!['0'] + s) =~= seq!['0']);
        assert((seq!['0']).drop_last() =~= Seq::<char>::empty());
        assert(hex_value(Seq::<char>::empty()) == 0);
        assert(seq!['0'].last() == '0');
        assert(hex_digit_value('0') == 0);
        assert(hex_value(seq!['0'])
            == hex_value((seq!['0']).drop_last()) * 16 + hex_digit_value(seq!['0'].last()));
    } else {
        assert((seq!['0'] + s).drop_last() =~= seq!['0'] + s.drop_last());
        lemma_hex_value_prepend_zero(s.drop_last());
        assert((seq!['0'] + s).last() == s.last());
    }
}

/// A leading zero digit does not change whether a numeral is hexadecimal.
pub proof fn lemma_all_hex_prepend_zero(s: Seq<char>)
    ensures
        all_hex_digits(seq!['0'] + s) == all_hex_digits(s),
{
    let p = seq!['0'] + s;
    assert(p[0] == '0');
    assert(is_hex_digit('0'));
    if all_hex_digits(s) {
        assert forall|i: int| 0 <= i < p.len() implies is_hex_digit(#[trigger] p[i]) by {
            if i > 0 {
                assert(p[i] == s[i - 1]);
            }
        }
    }
    if all_hex_digits(p) {
        assert forall|i: int| 0 <= i < s.len() implies is_hex_digit(#[trigger] s[i]) by {
            assert(s[i] == p[i + 1]);
        }
    }
}

/// The numeric value of one character, or `None` if it is not a hex digit.
fn hex_digit_of(c: char) -> (r: Option<u8>)
    ensures
        match r {
            Some(v) => is_hex_digit(c) && v < 16 && v as nat == hex_digit_value(c),
            None => !is_hex_digit(c),
        },
{
    let u = c as u32;
    if 48 <= u && u <= 57 {
        Some((u - 48) as u8)
    } else if 97 <= u && u <= 102 {
        Some((u - 97 + 10) as u8)
    } else if 65 <= u && u <= 70 {
        Some((u - 65 + 10) as u8)
    } else {
        None
    }
}

/// Reads the `len` characters of `s` starting at `start` as a big-endian
/// base-16 numeral.  Returns `None` exactly when one of those characters is
/// not a hexadecimal digit.
pub fn parse_hex_u32(s: &str, start: usize, len: usize) -> (r: Option<u32>)
    requires
        start + len <= s@.len(),
        start + len <= usize::MAX,
        len <= 8,
    ensures
        match r {
            Some(v) => all_hex_digits(s@.subrange(start as int, start + len))
                && v as nat == hex_value(s@.subrange(start as int, start + len)),
            None => !all_hex_digits(s@.subrange(start as int, start + len)),
        },
{
    let mut acc: u32 = 0;
    let mut i: usize = 0;
    while i < len
        invariant
            i <= len,
            len <= 8,
            start + len <= s@.len(),
            start + len <= usize::MAX,
            all_hex_digits(s@.subrange(start as int, start + i)),
            acc as nat == hex_value(s@.subrange(start as int, start + i)),
        decreases len - i,
    {
        let ghost prefix = s@.subrange(start as int, start + i);
        let c = s.get_char(start + i);
        let d = match hex_digit_of(c) {
            Some(d) => d,
            None => {
                // `c` stands inside the parsed range, so the range is not
                // all hex digits.
                assert(s@.subrange(start as int, start + len)[i as int] == c);
                return None;
            },
        };
        proof {
            lemma_hex_value_bound(prefix);
            lemma_pow16_increases(prefix.len(), 7);
            assert(pow16(7) == 0x1000_0000) by {
                reveal_with_fuel(pow16, 8);
            }
        }
        acc = acc * 16 + d as u32;
        i = i + 1;
        proof {
            assert(s@.subrange(start as int, start + i) =~= prefix.push(c));
            assert(prefix.push(c).drop_last() =~= prefix);
        }
    }
    proof {
        assert(s@.subrange(start as int, start + i)
            =~= s@.subrange(start as int, start + len));
    }
    Some(acc)
}

} // verus!
