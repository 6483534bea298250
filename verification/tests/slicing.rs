use utf16string::Utf16String;

#[test]
fn checked_ranges_produce_views() {
    let s = Utf16String::from_utf8_str("a\u{10000}");
    assert_eq!(s.get(..).unwrap().len(), 3);
    assert_eq!(s.get(0..=2).unwrap().len(), 3);
    assert_eq!(s.get(..=0).unwrap().len(), 1);
    assert_eq!(s.get(1..3).unwrap().code_units(), &[0xD800, 0xDC00]);
}

#[test]
fn invalid_ranges_give_none() {
    let s = Utf16String::from_utf8_str("a\u{10000}");
    // end beyond the length
    assert!(s.get(0..4).is_none());
    assert!(s.get(..4).is_none());
    assert!(s.get(4..).is_none());
    // start after end
    assert!(s.get(2..1).is_none());
    // inclusive end at the maximum representable index would overflow
    assert!(s.get(0..=usize::MAX).is_none());
    assert!(s.get(..=usize::MAX).is_none());
}

#[test]
fn slicing_may_split_pairs() {
    // code-unit-granular by design: a window may cut a pair in half
    let s = Utf16String::from_utf8_str("a\u{10000}");
    let half = s.get(0..2).unwrap();
    assert_eq!(half.code_units(), &[0x61, 0xD800]);
}

#[test]
fn get_unchecked_matches_get() {
    let s = Utf16String::from_utf8_str("a\u{10000}b");
    let v = s.as_utf16_str();
    assert_eq!(
        v.get_unchecked(1..3).code_units(),
        v.get(1..3).unwrap().code_units()
    );
    assert_eq!(v.get_unchecked(2..).code_units(), &[0xDC00, 0x62]);
}
