use utf16string::utils::two_utf16_offsets_as_utf8_offsets;
use utf16string::utils::two_utf8_offsets_as_utf16_offsets;
use utf16string::utils::utf16_offset_as_utf8_offset;
use utf16string::utils::utf8_offset_as_utf16_offset;
use utf16string::Utf16String;

#[test]
fn single_offsets_both_directions() {
    let utf8string = "a\u{10000}b";
    let s = Utf16String::from_utf8_str(utf8string);
    let v = s.as_utf16_str();
    assert_eq!(utf8_offset_as_utf16_offset(&v, utf8string, 0), 0);
    assert_eq!(utf8_offset_as_utf16_offset(&v, utf8string, 1), 1);
    assert_eq!(utf8_offset_as_utf16_offset(&v, utf8string, 5), 3);
    assert_eq!(utf8_offset_as_utf16_offset(&v, utf8string, 6), 4);
    assert_eq!(utf16_offset_as_utf8_offset(utf8string, &v, 0), 0);
    assert_eq!(utf16_offset_as_utf8_offset(utf8string, &v, 1), 1);
    assert_eq!(utf16_offset_as_utf8_offset(utf8string, &v, 3), 5);
    assert_eq!(utf16_offset_as_utf8_offset(utf8string, &v, 4), 6);
}

#[test]
fn utf16_offset_inside_pair_counts_the_pair() {
    // a code point whose encoding straddles the offset still begins
    // before it, so it counts toward the rank
    let utf8string = "a\u{10000}b";
    let s = Utf16String::from_utf8_str(utf8string);
    let v = s.as_utf16_str();
    assert_eq!(utf16_offset_as_utf8_offset(utf8string, &v, 2), 5);
}

#[test]
fn paired_offsets_at_the_ends() {
    let utf8string = "a\u{10000}b";
    let s = Utf16String::from_utf8_str(utf8string);
    let v = s.as_utf16_str();
    // each offset of a pair maps as the single-offset functions map it,
    // including the very start and the very end
    assert_eq!(two_utf16_offsets_as_utf8_offsets(utf8string, &v, 0, 4), (0, 6));
    assert_eq!(two_utf8_offsets_as_utf16_offsets(&v, utf8string, 0, 6), (0, 4));
    assert_eq!(two_utf16_offsets_as_utf8_offsets(utf8string, &v, 3, 3), (5, 5));
}

#[test]
fn empty_strings_map_to_zero() {
    let s = Utf16String::new();
    let v = s.as_utf16_str();
    assert_eq!(utf8_offset_as_utf16_offset(&v, "", 0), 0);
    assert_eq!(utf16_offset_as_utf8_offset("", &v, 0), 0);
}

#[test]
fn ascii_only_offsets_are_equal() {
    let utf8string = "plain";
    let s = Utf16String::from_utf8_str(utf8string);
    let v = s.as_utf16_str();
    for off in 0..=5usize {
        assert_eq!(utf8_offset_as_utf16_offset(&v, utf8string, off), off);
        assert_eq!(utf16_offset_as_utf8_offset(utf8string, &v, off), off);
    }
}
