use utf16string::Utf16Str;
use utf16string::Utf16String;

#[test]
fn new_and_default_are_empty() {
    assert_eq!(Utf16String::new().len(), 0);
    assert!(Utf16String::new().is_empty());
    assert_eq!(Utf16String::default().len(), 0);
}

#[test]
fn push_encodes_whole_code_points() {
    let mut s = Utf16String::new();
    s.push('a');
    s.push('\u{10000}');
    assert_eq!(s.as_utf16_str().code_units(), &[0x61, 0xD800, 0xDC00]);
}

#[test]
fn push_utf16_str_appends_verbatim() {
    let units: Vec<u16> = vec![0x61, 0xD800];
    let half = Utf16Str::from_utf16(&units);
    let mut s = Utf16String::from_utf8_str("x");
    s.push_utf16_str(&half);
    assert_eq!(s.as_utf16_str().code_units(), &[0x78, 0x61, 0xD800]);
}

#[test]
fn length_is_sum_of_widths() {
    // 1 (a) + 2 (U+10000) + 1 (e acute) + 2 (U+10FFFF)
    let s = Utf16String::from_utf8_str("a\u{10000}\u{E9}\u{10FFFF}");
    assert_eq!(s.len(), 6);
}

#[test]
fn insert_shifts_right() {
    let mut s = Utf16String::from_utf8_str("ab");
    s.insert(1, '\u{10000}');
    assert_eq!(s.as_utf16_str().code_units(), &[0x61, 0xD800, 0xDC00, 0x62]);
}

#[test]
fn insert_utf16_str_at_index() {
    let units: Vec<u16> = vec![0x63, 0x64];
    let v = Utf16Str::from_utf16(&units);
    let mut s = Utf16String::from_utf8_str("ab");
    s.insert_utf16_str(1, &v);
    assert_eq!(s.as_utf16_str().code_units(), &[0x61, 0x63, 0x64, 0x62]);
}

#[test]
fn insert_utf8_str_at_index() {
    let mut s = Utf16String::from_utf8_str("ab");
    s.insert_utf8_str(1, "\u{10000}c");
    assert_eq!(s.as_utf16_str().code_units(), &[0x61, 0xD800, 0xDC00, 0x63, 0x62]);
}

#[test]
fn remove_takes_whole_pair() {
    let mut s = Utf16String::from_utf8_str("a\u{10000}b");
    assert_eq!(s.remove(1), '\u{10000}');
    assert_eq!(s.as_utf16_str().code_units(), &[0x61, 0x62]);
    assert_eq!(s.remove(0), 'a');
    assert_eq!(s.as_utf16_str().code_units(), &[0x62]);
}

#[test]
fn pop_takes_whole_pair() {
    let mut s = Utf16String::from_utf8_str("a\u{10000}");
    assert_eq!(s.len(), 3);
    assert_eq!(s.pop(), Some('\u{10000}'));
    assert_eq!(s.len(), 1);
    assert_eq!(s.to_utf8(), "a");
    assert_eq!(s.pop(), Some('a'));
    assert_eq!(s.pop(), None);
}

#[test]
fn insert_at_end_appends() {
    let mut s = Utf16String::from_utf8_str("a");
    s.insert(1, 'b');
    assert_eq!(s.to_utf8(), "ab");
}

#[test]
fn empty_buffer_iterates_nothing() {
    let s = Utf16String::new();
    assert_eq!(s.chars().next(), None);
    assert_eq!(s.char_indices().next(), None);
    assert_eq!(s.to_utf8(), "");
}

#[test]
fn clear_empties() {
    let mut s = Utf16String::from_utf8_str("a\u{10000}");
    s.clear();
    assert!(s.is_empty());
}

#[test]
fn to_owned_copies() {
    let units: Vec<u16> = vec![0x61, 0xD800, 0xDC00];
    let v = Utf16Str::from_utf16(&units);
    let owned = v.to_owned();
    assert_eq!(owned.as_utf16_str().code_units(), &[0x61, 0xD800, 0xDC00]);
}

#[test]
fn utf8_round_trip_is_identity() {
    for text in ["", "plain", "a\u{10000}b", "\u{10000}\u{10FFFF}", "mix\u{E9}\u{1F600}end"] {
        let first = Utf16String::from_utf8_str(text);
        let back = Utf16String::from_utf8_str(&first.to_utf8());
        assert_eq!(
            first.as_utf16_str().code_units(),
            back.as_utf16_str().code_units()
        );
    }
}

#[test]
fn lone_surrogates_decode_to_nul() {
    // malformed content is tolerated; a lone surrogate has no char value
    // and decodes to the NUL fallback
    let units: Vec<u16> = vec![0xD800, 0x61, 0xDFFF];
    let v = Utf16Str::from_utf16(&units);
    let mut chars = v.chars();
    assert_eq!(chars.next(), Some('\u{0}'));
    assert_eq!(chars.next(), Some('a'));
    assert_eq!(chars.next(), Some('\u{0}'));
    assert_eq!(chars.next(), None);
}

#[test]
fn case_mapping_changes_letters() {
    let s = Utf16String::from_utf8_str("AbC\u{10000}");
    assert_eq!(s.as_utf16_str().to_lowercase().to_utf8(), "abc\u{10000}");
    assert_eq!(s.as_utf16_str().to_uppercase().to_utf8(), "ABC\u{10000}");
}

#[test]
fn char_indices_give_starts() {
    let s = Utf16String::from_utf8_str("a\u{10000}b");
    let mut it = s.char_indices();
    assert_eq!(it.next(), Some((0, 'a')));
    assert_eq!(it.next(), Some((1, '\u{10000}')));
    assert_eq!(it.next(), Some((3, 'b')));
    assert_eq!(it.next(), None);
}

#[test]
fn unit_at_reads_single_units() {
    let s = Utf16String::from_utf8_str("a\u{10000}");
    let v = s.as_utf16_str();
    assert_eq!(v.unit_at(0), 0x61);
    assert_eq!(v.unit_at(1), 0xD800);
    assert_eq!(v.unit_at(2), 0xDC00);
}
