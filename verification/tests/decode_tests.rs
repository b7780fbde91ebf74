use mappers::error::MyError;
use mappers::index::decode;

/// Builds a 16-character raw H3 index with mode byte 8, the given resolution
/// and levels 6-9 digits, base cell 20, zero digits at levels 1-5, and the
/// reserved value 7 at levels 10-15.
fn make_raw(res: u64, d6: u64, d7: u64, d8: u64, d9: u64) -> String {
    let b = (d6 << 9) | (d7 << 6) | (d8 << 3) | d9;
    let v = (8u64 << 56) | (res << 52) | (20u64 << 45) | (b << 18) | 0x3FFFF;
    format!("{:016x}", v)
}

#[test]
fn concrete_example_res5_fails_resolution_gate() {
    // Mode byte resolves to reserved=0 / mode=1 / mode-dependent=0 and the
    // resolution field is 5; since 5 < 9, decoding fails with IncorrectRes9.
    assert_eq!(decode("85283473fffffff"), Err(MyError::IncorrectRes9));
}

#[test]
fn round_trip_every_digit_tuple() {
    for d6 in 0..7u64 {
        for d7 in 0..7u64 {
            for d8 in 0..7u64 {
                for d9 in 0..7u64 {
                    let raw = make_raw(9, d6, d7, d8, d9);
                    let h = decode(&raw).unwrap();
                    assert_eq!(h.mode_tag, 8);
                    assert_eq!(h.resolution, 9);
                    assert_eq!(
                        (h.digit6, h.digit7, h.digit8, h.digit9),
                        (d6 as u8, d7 as u8, d8 as u8, d9 as u8)
                    );
                }
            }
        }
    }
}

#[test]
fn fifteen_and_sixteen_characters_decode_identically() {
    let s16 = make_raw(9, 1, 2, 3, 4);
    assert!(s16.starts_with('0'));
    let s15 = &s16[1..];
    assert_eq!(decode(s15), decode(&s16));

    let bad16 = make_raw(8, 1, 2, 3, 4);
    let bad15 = &bad16[1..];
    assert_eq!(decode(bad15), decode(&bad16));
    assert_eq!(decode(bad15), Err(MyError::IncorrectRes9));
}

#[test]
fn resolution_gate() {
    assert_eq!(decode(&make_raw(8, 0, 0, 0, 0)), Err(MyError::IncorrectRes9));
    assert_eq!(decode(&make_raw(0, 0, 0, 0, 0)), Err(MyError::IncorrectRes9));
    let nine = decode(&make_raw(9, 5, 4, 3, 2)).unwrap();
    assert_eq!(nine.resolution, 9);
    // Finer resolution is accepted; only the levels 6-9 digits are reported.
    let fifteen = decode(&make_raw(15, 5, 4, 3, 2)).unwrap();
    assert_eq!(fifteen.resolution, 15);
    assert_eq!(
        (fifteen.digit6, fifteen.digit7, fifteen.digit8, fifteen.digit9),
        (5, 4, 3, 2)
    );
}

#[test]
fn mode_gate() {
    // A 16-character index whose top byte is 0x85, not 8.
    assert_eq!(decode("85283473ffffffff"), Err(MyError::InvalidCell));
    // Mode byte 9 fails even with an acceptable resolution field.
    let v = (9u64 << 56) | (9u64 << 52) | 0x3FFFF;
    assert_eq!(decode(&format!("{:016x}", v)), Err(MyError::InvalidCell));
    // Mode byte 0 likewise.
    let v = 9u64 << 52;
    assert_eq!(decode(&format!("{:016x}", v)), Err(MyError::InvalidCell));
}

#[test]
fn wrong_length_is_invalid() {
    assert_eq!(decode(""), Err(MyError::InvalidCell));
    assert_eq!(decode("0"), Err(MyError::InvalidCell));
    assert_eq!(decode("85283473ffffff"), Err(MyError::InvalidCell));
    assert_eq!(decode("085283473fffffff0"), Err(MyError::InvalidCell));
}

#[test]
fn non_hex_characters_are_invalid() {
    // A bad character in the upper word.
    assert_eq!(decode("0g983473ffffffff"), Err(MyError::InvalidCell));
    // A bad character in the lower word, behind a valid upper word.
    assert_eq!(decode("08983473fffffffz"), Err(MyError::InvalidCell));
    // Sign characters are not hexadecimal digits.
    assert_eq!(decode("+8983473ffffffff"), Err(MyError::InvalidCell));
}

#[test]
fn upper_case_hex_is_accepted() {
    let raw = make_raw(10, 6, 0, 6, 0).to_uppercase();
    let h = decode(&raw).unwrap();
    assert_eq!(h.resolution, 10);
    assert_eq!((h.digit6, h.digit7, h.digit8, h.digit9), (6, 0, 6, 0));
}

#[test]
fn reserved_digits_are_reported_by_the_decoder() {
    // The decoder reports the raw 3-bit digits; the reserved value 7 is
    // only rejected later, when the coverage offset is derived.
    let h = decode(&make_raw(9, 7, 7, 7, 7)).unwrap();
    assert_eq!((h.digit6, h.digit7, h.digit8, h.digit9), (7, 7, 7, 7));
}

#[test]
fn non_ascii_input_is_rejected_not_misparsed() {
    assert_eq!(decode("ü8983473öfffffff"), Err(MyError::InvalidCell));
}
