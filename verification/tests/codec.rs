use utf16string::utils::decode_char;
use utf16string::utils::encode_char;
use utf16string::utils::is_high_surrogate;
use utf16string::utils::is_low_surrogate;

#[test]
fn encode_single_unit() {
    assert_eq!(encode_char('a'), vec![0x61u16]);
    assert_eq!(encode_char('\u{FFFF}'), vec![0xFFFFu16]);
    assert_eq!(encode_char('\u{0}'), vec![0u16]);
}

#[test]
fn encode_surrogate_pair() {
    assert_eq!(encode_char('\u{10000}'), vec![0xD800u16, 0xDC00u16]);
    assert_eq!(encode_char('\u{10FFFF}'), vec![0xDBFFu16, 0xDFFFu16]);
    assert_eq!(encode_char('\u{1F600}'), vec![0xD83Du16, 0xDE00u16]);
}

#[test]
fn decode_pair_exact() {
    assert_eq!(decode_char(0xD800, 0xDC00), '\u{10000}');
    assert_eq!(decode_char(0xDBFF, 0xDFFF), '\u{10FFFF}');
    assert_eq!(decode_char(0xD83D, 0xDE00), '\u{1F600}');
}

#[test]
fn decode_invalid_is_nul() {
    // arithmetic above the scalar range falls back to NUL
    assert_eq!(decode_char(0xFFFF, 0xDC00), '\u{0}');
    // arithmetic below zero falls back to NUL
    assert_eq!(decode_char(0, 0), '\u{0}');
    // arithmetic that lands back inside the scalar range is kept as is
    assert_eq!(decode_char(0xD800, 0), '\u{2400}');
}

#[test]
fn round_trip_all_widths() {
    for c in ['a', '\u{7F}', '\u{80}', '\u{7FF}', '\u{800}', '\u{D7FF}', '\u{E000}', '\u{FFFF}'] {
        let units = encode_char(c);
        assert_eq!(units.len(), 1);
        assert_eq!(char::from_u32(units[0] as u32).unwrap(), c);
    }
    for c in ['\u{10000}', '\u{103A0}', '\u{1F600}', '\u{10FFFF}'] {
        let units = encode_char(c);
        assert_eq!(units.len(), 2);
        assert_eq!(decode_char(units[0], units[1]), c);
    }
}

#[test]
fn surrogate_classification() {
    assert!(is_high_surrogate(0xD800));
    assert!(is_high_surrogate(0xDBFF));
    assert!(!is_high_surrogate(0xDC00));
    assert!(!is_high_surrogate(0xD7FF));
    assert!(is_low_surrogate(0xDC00));
    assert!(is_low_surrogate(0xDFFF));
    assert!(!is_low_surrogate(0xDBFF));
    assert!(!is_low_surrogate(0xE000));
    assert!(!is_high_surrogate(0x61));
    assert!(!is_low_surrogate(0x61));
}
