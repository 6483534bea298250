//! Codec primitives: surrogate classification, encoding a code point into
//! one or two code units, decoding a surrogate pair back into a code point,
//! and the sequence-level model of UTF-16 decoding that the rest of the
//! library is specified against.
use crate::Utf16Str;
use vstd::prelude::*;
use vstd::std_specs::iter::IteratorSpec;
use vstd::utf8::char_is_scalar;
use vstd::utf8::char_u32_cast;
use vstd::utf8::is_scalar;

verus! {

broadcast use vstd::string::group_string_axioms;

/// True when the code unit lies in the reserved high-surrogate range.
pub open spec fn spec_is_high_surrogate(cu: u16) -> bool {
    0xD800 <= cu <= 0xDBFF
}

/// True when the code unit lies in the reserved low-surrogate range.
pub open spec fn spec_is_low_surrogate(cu: u16) -> bool {
    0xDC00 <= cu <= 0xDFFF
}

/// Determines whether a UTF-16 code unit is a high surrogate.
#[verifier::when_used_as_spec(spec_is_high_surrogate)]
pub fn is_high_surrogate(cu: u16) -> (r: bool)
    ensures
        r == spec_is_high_surrogate(cu),
{
    0xD800 <= cu && cu <= 0xDBFF
}

/// Determines whether a UTF-16 code unit is a low surrogate.
#[verifier::when_used_as_spec(spec_is_low_surrogate)]
pub fn is_low_surrogate(cu: u16) -> (r: bool)
    ensures
        r == spec_is_low_surrogate(cu),
{
    0xDC00 <= cu && cu <= 0xDFFF
}

/// The one- or two-unit UTF-16 encoding of a code point: a code point
/// whose value fits in 16 bits is that single unit; a larger one is
/// split, after subtracting 0x10000, into a 10-bit high part added to
/// 0xD800 and a 10-bit low part added to 0xDC00, in (high, low) order.
pub open spec fn spec_encode_char(c: char) -> Seq<u16> {
    let v = c as u32;
    if v < 0x10000 {
        seq![v as u16]
    } else {
        seq![
            (0xD800 + (v - 0x10000) / 0x400) as u16,
            (0xDC00 + (v - 0x10000) % 0x400) as u16,
        ]
    }
}

/// The mathematical value a surrogate pair stands for; negative when the
/// units are below the surrogate base values.
pub open spec fn decoded_scalar(hi: u16, low: u16) -> int {
    (hi - 0xD800) * 0x400 + (low - 0xDC00) + 0x10000
}

/// True when the value is a Unicode scalar value.
pub open spec fn is_scalar_value(v: int) -> bool {
    0 <= v <= 0x10FFFF && !(0xD800 <= v <= 0xDFFF)
}

/// The code point a pair of code units decodes to, with the NUL fallback:
/// when the decoded value is not a Unicode scalar value, the result is
/// U+0000 rather than an error.
pub open spec fn spec_decode_char(hi: u16, low: u16) -> char {
    if is_scalar_value(decoded_scalar(hi, low)) {
        (decoded_scalar(hi, low) as u32) as char
    } else {
        '\0'
    }
}

/// The code point a single code unit stands for on its own: its numeric
/// value when that is a Unicode scalar value, and the NUL fallback for a
/// lone surrogate, which no `char` can represent.
pub open spec fn unit_char(cu: u16) -> char {
    if is_scalar(cu as u32) {
        (cu as u32) as char
    } else {
        '\0'
    }
}

/// True when a surrogate pair starts at index `i`: a high surrogate
/// immediately followed by a low surrogate.
pub open spec fn is_pair_at(s: Seq<u16>, i: int) -> bool {
    &&& 0 <= i
    &&& i + 1 < s.len()
    &&& spec_is_high_surrogate(s[i])
    &&& spec_is_low_surrogate(s[i + 1])
}

/// How many code units the code point starting at index `i` occupies.
pub open spec fn step_at(s: Seq<u16>, i: int) -> int {
    if is_pair_at(s, i) {
        2
    } else {
        1
    }
}

/// The code point starting at index `i`: a surrogate pair decodes as one
/// code point; any other unit stands for itself.
pub open spec fn char_at(s: Seq<u16>, i: int) -> char {
    if is_pair_at(s, i) {
        spec_decode_char(s[i], s[i + 1])
    } else {
        unit_char(s[i])
    }
}

/// The code points of the code-unit run, decoded from index `i` on.
pub open spec fn decode_utf16_from(s: Seq<u16>, i: int) -> Seq<char>
    decreases s.len() - i,
{
    if i < 0 || i >= s.len() {
        Seq::empty()
    } else {
        seq![char_at(s, i)] + decode_utf16_from(s, i + step_at(s, i))
    }
}

/// The code points of the whole code-unit run.
pub open spec fn decode_utf16(s: Seq<u16>) -> Seq<char> {
    decode_utf16_from(s, 0)
}

/// A run of `n` code units decodes to at least half of `n` code points,
/// rounded up, and at most `n` of them: every code point spans one or
/// two units.
pub proof fn lemma_decode_utf16_len(s: Seq<u16>, i: int)
    requires
        0 <= i <= s.len(),
    ensures
        (s.len() - i + 1) / 2 <= decode_utf16_from(s, i).len() <= s.len() - i,
    decreases s.len() - i,
{
    if i < s.len() {
        lemma_decode_utf16_len(s, i + step_at(s, i));
    }
}

/// The UTF-16 encoding of a sequence of code points: the concatenation
/// of each code point's one- or two-unit encoding.
pub open spec fn encode_utf16(chars: Seq<char>) -> Seq<u16>
    decreases chars.len(),
{
    if chars.len() == 0 {
        Seq::empty()
    } else {
        spec_encode_char(chars[0]) + encode_utf16(chars.drop_first())
    }
}

/// Appending one code point to a sequence appends its encoding to the
/// sequence's encoding.
pub proof fn lemma_encode_utf16_push(chars: Seq<char>, c: char)
    ensures
        encode_utf16(chars.push(c)) == encode_utf16(chars) + spec_encode_char(c),
    decreases chars.len(),
{
    if chars.len() == 0 {
        assert(chars.push(c).drop_first() =~= Seq::<char>::empty());
        assert(chars.push(c)[0] == c);
        assert(encode_utf16(chars.push(c)) == spec_encode_char(c) + encode_utf16(
            chars.push(c).drop_first(),
        ));
        assert(encode_utf16(chars.push(c).drop_first()) == Seq::<u16>::empty());
        assert(encode_utf16(chars) == Seq::<u16>::empty());
        assert(spec_encode_char(c) + Seq::<u16>::empty() =~= Seq::<u16>::empty()
            + spec_encode_char(c));
    } else {
        assert(chars.push(c).drop_first() =~= chars.drop_first().push(c));
        lemma_encode_utf16_push(chars.drop_first(), c);
        assert(chars.push(c)[0] == chars[0]);
        assert(encode_utf16(chars.push(c)) == spec_encode_char(chars[0]) + (encode_utf16(
            chars.drop_first(),
        ) + spec_encode_char(c)));
        assert(encode_utf16(chars) == spec_encode_char(chars[0]) + encode_utf16(
            chars.drop_first(),
        ));
        assert(spec_encode_char(chars[0]) + (encode_utf16(chars.drop_first()) + spec_encode_char(
            c,
        )) =~= (spec_encode_char(chars[0]) + encode_utf16(chars.drop_first())) + spec_encode_char(
            c,
        ));
    }
}

/// The two halves a supplementary-plane value splits into: quotient and
/// remainder by 0x400, which recombine exactly.
proof fn lemma_surrogate_parts(v: int)
    requires
        0x10000 <= v <= 0x10FFFF,
    ensures
        0 <= (v - 0x10000) / 0x400 <= 0x3FF,
        0 <= (v - 0x10000) % 0x400 <= 0x3FF,
        ((v - 0x10000) / 0x400) * 0x400 + (v - 0x10000) % 0x400 == v - 0x10000,
{
    let x = v - 0x10000;
    assert(x / 0x400 <= 0x3FF && 0 <= x / 0x400 && 0 <= x % 0x400 <= 0x3FF && (x / 0x400) * 0x400
        + x % 0x400 == x) by (nonlinear_arith)
        requires
            0 <= x <= 0xFFFFF,
    ;
}

/// Encoding a code point and decoding the result reproduces the code
/// point exactly: a single unit stands for itself, and a surrogate pair
/// decodes back to the value it was split from.
pub proof fn lemma_encode_decode_char(c: char)
    ensures
        spec_encode_char(c).len() == 1 ==> unit_char(spec_encode_char(c)[0]) == c,
        spec_encode_char(c).len() == 2 ==> spec_decode_char(
            spec_encode_char(c)[0],
            spec_encode_char(c)[1],
        ) == c,
{
    char_is_scalar(c);
    char_u32_cast(c, c as u32);
    let v = c as u32;
    if v >= 0x10000 {
        lemma_surrogate_parts(v as int);
        let hi = spec_encode_char(c)[0];
        let low = spec_encode_char(c)[1];
        assert(hi == 0xD800 + (v - 0x10000) / 0x400);
        assert(low == 0xDC00 + (v - 0x10000) % 0x400);
        assert(decoded_scalar(hi, low) == v);
    }
}

/// The number of code units a code point occupies in UTF-16: one when
/// its value fits in 16 bits, two otherwise.
pub open spec fn utf16_width(c: char) -> int {
    if (c as u32) < 0x10000 {
        1
    } else {
        2
    }
}

/// The sum, over a sequence of code points, of each one's width in
/// code units.
pub open spec fn utf16_len_of(chars: Seq<char>) -> int
    decreases chars.len(),
{
    if chars.len() == 0 {
        0
    } else {
        utf16_width(chars[0]) + utf16_len_of(chars.drop_first())
    }
}

/// Law: the encoding of a sequence of code points has length the sum
/// over its code points of one unit for a value at most 0xFFFF and two
/// units for a larger one.
pub proof fn lemma_encode_utf16_len(chars: Seq<char>)
    ensures
        encode_utf16(chars).len() == utf16_len_of(chars),
    decreases chars.len(),
{
    if chars.len() > 0 {
        lemma_encode_utf16_len(chars.drop_first());
    }
}

/// Decoding from index `i` is decoding the run that remains from `i`.
pub proof fn lemma_decode_from_skip(s: Seq<u16>, i: int)
    requires
        0 <= i <= s.len(),
    ensures
        decode_utf16_from(s, i) == decode_utf16(s.skip(i)),
    decreases s.len() - i,
{
    let t = s.skip(i);
    if i < s.len() {
        assert(t[0] == s[i]);
        if i + 1 < s.len() {
            assert(t[1] == s[i + 1]);
        }
        assert(is_pair_at(s, i) == is_pair_at(t, 0));
        let st = step_at(s, i);
        lemma_decode_from_skip(s, i + st);
        lemma_decode_from_skip(t, st);
        assert(s.skip(i + st) =~= t.skip(st));
        assert(char_at(s, i) == char_at(t, 0));
    } else {
        assert(t.len() == 0);
        assert(decode_utf16_from(s, i) =~= decode_utf16(t));
    }
}

/// Law: decoding the UTF-16 encoding of a sequence of code points gives
/// exactly those code points back.
pub proof fn lemma_decode_encode_utf16(chars: Seq<char>)
    ensures
        decode_utf16(encode_utf16(chars)) == chars,
    decreases chars.len(),
{
    if chars.len() == 0 {
        assert(decode_utf16(encode_utf16(chars)) =~= chars);
    } else {
        let c = chars[0];
        let e = spec_encode_char(c);
        let s = encode_utf16(chars);
        let rest = encode_utf16(chars.drop_first());
        lemma_decode_encode_utf16(chars.drop_first());
        lemma_encode_decode_char(c);
        char_is_scalar(c);
        let v = c as u32;
        if v < 0x10000 {
            assert(s[0] == e[0]);
            assert(!spec_is_high_surrogate(s[0]));
            assert(!is_pair_at(s, 0));
            assert(char_at(s, 0) == c);
            assert(s.skip(1) =~= rest);
            lemma_decode_from_skip(s, 1);
        } else {
            lemma_surrogate_parts(v as int);
            assert(s[0] == e[0] && s[1] == e[1]);
            assert(spec_is_high_surrogate(s[0]));
            assert(spec_is_low_surrogate(s[1]));
            assert(is_pair_at(s, 0));
            assert(char_at(s, 0) == c);
            assert(s.skip(2) =~= rest);
            lemma_decode_from_skip(s, 2);
        }
        assert(decode_utf16(s) =~= chars);
    }
}

/// Law: a buffer holding the UTF-16 encoding of a text, converted to
/// UTF-8 text and converted back, holds the same code units.
pub proof fn lemma_utf16_round_trip(chars: Seq<char>)
    ensures
        encode_utf16(decode_utf16(encode_utf16(chars))) == encode_utf16(chars),
{
    lemma_decode_encode_utf16(chars);
}

/// The number of whole code points that begin strictly before offset
/// `off`, walking the code units from index `i`. A code point whose
/// encoding straddles `off` still counts: it begins before `off`.
pub open spec fn utf16_rank_from(s: Seq<u16>, i: int, off: int) -> int
    decreases s.len() - i,
{
    if i < 0 || i >= s.len() || i >= off {
        0
    } else {
        1 + utf16_rank_from(s, i + step_at(s, i), off)
    }
}

/// The number of whole code points that begin strictly before offset
/// `off` in the code-unit run.
pub open spec fn utf16_rank_of(s: Seq<u16>, off: int) -> int {
    utf16_rank_from(s, 0, off)
}

/// The code-unit offset reached by stepping over `n` code points,
/// starting from index `i`; sticks at the end once the run is
/// exhausted.
pub open spec fn utf16_advance(s: Seq<u16>, i: int, n: int) -> int
    decreases n,
{
    if n <= 0 || i < 0 || i >= s.len() {
        i
    } else {
        utf16_advance(s, i + step_at(s, i), n - 1)
    }
}

/// The code-unit offset where the code point of rank `n` begins, or the
/// total length when the rank meets or exceeds the code-point count.
pub open spec fn utf16_offset_of(s: Seq<u16>, n: int) -> int {
    utf16_advance(s, 0, n)
}

/// The number of bytes in the UTF-8 encoding of one code point.
pub open spec fn utf8_width(c: char) -> int {
    vstd::utf8::encode_scalar(c as u32).len() as int
}

/// The byte offset where the code point of rank `n` begins in the UTF-8
/// encoding of the character sequence, or the total byte length when
/// the rank meets or exceeds the count.
pub open spec fn utf8_offset_of(chars: Seq<char>, n: int) -> int
    decreases n,
{
    if n <= 0 {
        0
    } else if n > chars.len() {
        utf8_offset_of(chars, chars.len() as int)
    } else {
        utf8_offset_of(chars, n - 1) + utf8_width(chars[n - 1])
    }
}

/// True when `off` is the byte offset of a code-point boundary, or of
/// the end, in the UTF-8 encoding of the character sequence.
pub open spec fn utf8_boundary(chars: Seq<char>, off: int) -> bool {
    exists|n: int| 0 <= n <= chars.len() && utf8_offset_of(chars, n) == off
}

/// Every code point occupies between one and four bytes of UTF-8.
pub proof fn lemma_utf8_width_bounds(c: char)
    ensures
        1 <= utf8_width(c) <= 4,
{
    char_is_scalar(c);
}

/// The byte offset of a rank never decreases as the rank grows, grows
/// strictly while ranks stay within the count, and is at least the rank
/// itself.
pub proof fn lemma_utf8_offset_of_mono(chars: Seq<char>, m: int, n: int)
    requires
        0 <= m <= n,
    ensures
        utf8_offset_of(chars, m) <= utf8_offset_of(chars, n),
        m < n && n <= chars.len() ==> utf8_offset_of(chars, m) < utf8_offset_of(chars, n),
        m <= chars.len() ==> m <= utf8_offset_of(chars, m),
    decreases n,
{
    if m == n {
        if 0 < m <= chars.len() {
            lemma_utf8_offset_of_mono(chars, m - 1, m - 1);
            lemma_utf8_width_bounds(chars[m - 1]);
        }
    } else if n > chars.len() {
        if m >= chars.len() {
            lemma_utf8_offset_of_mono(chars, chars.len() as int, m);
        } else {
            lemma_utf8_offset_of_mono(chars, m, chars.len() as int);
        }
    } else {
        lemma_utf8_offset_of_mono(chars, m, n - 1);
        lemma_utf8_width_bounds(chars[n - 1]);
    }
}

/// Appending one code point to a sequence appends its scalar encoding
/// to the sequence's UTF-8 encoding.
pub proof fn lemma_encode_utf8_push(chars: Seq<char>, c: char)
    ensures
        vstd::utf8::encode_utf8(chars.push(c)) == vstd::utf8::encode_utf8(chars)
            + vstd::utf8::encode_scalar(c as u32),
    decreases chars.len(),
{
    if chars.len() == 0 {
        assert(chars.push(c).drop_first() =~= Seq::<char>::empty());
        assert(chars.push(c)[0] == c);
        assert(vstd::utf8::encode_utf8(chars.push(c).drop_first()) == Seq::<u8>::empty());
        assert(vstd::utf8::encode_utf8(chars) == Seq::<u8>::empty());
        assert(vstd::utf8::encode_scalar(c as u32) + Seq::<u8>::empty() =~= Seq::<u8>::empty()
            + vstd::utf8::encode_scalar(c as u32));
    } else {
        assert(chars.push(c).drop_first() =~= chars.drop_first().push(c));
        lemma_encode_utf8_push(chars.drop_first(), c);
        assert(chars.push(c)[0] == chars[0]);
        assert(vstd::utf8::encode_scalar(chars[0] as u32) + (vstd::utf8::encode_utf8(
            chars.drop_first(),
        ) + vstd::utf8::encode_scalar(c as u32)) =~= (vstd::utf8::encode_scalar(chars[0] as u32)
            + vstd::utf8::encode_utf8(chars.drop_first())) + vstd::utf8::encode_scalar(c as u32));
    }
}

/// The byte offset of rank `n` is the byte length of the UTF-8 encoding
/// of the first `n` code points.
pub proof fn lemma_utf8_offset_of_is_prefix_len(chars: Seq<char>, n: int)
    requires
        0 <= n <= chars.len(),
    ensures
        utf8_offset_of(chars, n) == vstd::utf8::encode_utf8(chars.take(n)).len(),
    decreases n,
{
    if n == 0 {
        assert(chars.take(0) =~= Seq::<char>::empty());
    } else {
        lemma_utf8_offset_of_is_prefix_len(chars, n - 1);
        assert(chars.take(n - 1).push(chars[n - 1]) =~= chars.take(n));
        lemma_encode_utf8_push(chars.take(n - 1), chars[n - 1]);
        char_is_scalar(chars[n - 1]);
    }
}

/// The byte offset of any rank is at most the total byte length of the
/// UTF-8 encoding.
pub proof fn lemma_utf8_offset_of_le_total(chars: Seq<char>, n: int)
    requires
        0 <= n,
    ensures
        utf8_offset_of(chars, n) <= vstd::utf8::encode_utf8(chars).len(),
{
    let len = chars.len() as int;
    if n <= len {
        lemma_utf8_offset_of_mono(chars, n, len);
    } else {
        lemma_utf8_offset_of_mono(chars, len, n);
    }
    lemma_utf8_offset_of_is_prefix_len(chars, len);
    assert(chars.take(len) =~= chars);
}

/// Relies on `char::from_u32`: returns the `char` with the given scalar
/// value exactly when the value is a Unicode scalar value (at most
/// 0x10FFFF and not a surrogate), and `None` otherwise.
pub assume_specification[ char::from_u32 ](v: u32) -> (r: Option<char>)
    ensures
        r is Some <==> is_scalar(v),
        r is Some ==> r->0 as u32 == v,
;

/// Encodes a code point into a sequence of code units.
/// The maximum number of elements returned is 2.
pub fn encode_char(ch: char) -> (r: Vec<u16>)
    ensures
        r@ == spec_encode_char(ch),
{
    let v = ch as u32;
    let mut r: Vec<u16> = Vec::new();
    if v < 0x10000 {
        r.push(v as u16);
    } else {
        proof {
            char_is_scalar(ch);
        }
        let x = v - 0x10000;
        assert(x / 0x400 <= 0x3FF && x % 0x400 <= 0x3FF) by (nonlinear_arith)
            requires
                x <= 0xFFFFFu32,
        ;
        let hi = 0xD800 + x / 0x400;
        let low = 0xDC00 + x % 0x400;
        r.push(hi as u16);
        r.push(low as u16);
    }
    assert(r@ =~= spec_encode_char(ch));
    r
}

/// Decodes a high surrogate and low surrogate into a code point. Total:
/// a pair whose arithmetic does not give a Unicode scalar value decodes
/// to NUL rather than failing.
pub fn decode_char(hi: u16, low: u16) -> (c: char)
    ensures
        c == spec_decode_char(hi, low),
{
    let v: i64 = (hi as i64 - 0xD800) * 0x400 + (low as i64 - 0xDC00) + 0x10000;
    if 0 <= v && v <= 0x10FFFF && !(0xD800 <= v && v <= 0xDFFF) {
        match char::from_u32(v as u32) {
            Some(c) => {
                proof {
                    char_u32_cast(c, v as u32);
                }
                c
            },
            None => '\0',
        }
    } else {
        '\0'
    }
}

/// The number of bytes the code point occupies in UTF-8.
fn utf8_len_of(c: char) -> (r: usize)
    ensures
        r as int == utf8_width(c),
{
    let v = c as u32;
    proof {
        char_is_scalar(c);
    }
    if v < 0x80 {
        1
    } else if v < 0x800 {
        2
    } else if v < 0x10000 {
        3
    } else {
        4
    }
}

/// Counts the code points of the view that begin strictly before
/// code-unit offset `off`.
fn rank16_of_offset(s: &Utf16Str<'_>, off: usize) -> (k: usize)
    requires
        off <= s@.len(),
    ensures
        k as int == utf16_rank_of(s@, off as int),
        k <= s@.len(),
{
    let n = s.raw.len();
    let mut i: usize = 0;
    let mut k: usize = 0;
    while i < off
        invariant
            off <= n,
            n == s@.len(),
            k <= i,
            i <= n,
            utf16_rank_of(s@, off as int) == k + utf16_rank_from(s@, i as int, off as int),
        decreases n - i,
    {
        let cu1 = *vstd::slice::slice_index_get(s.raw, i);
        let step: usize = if is_high_surrogate(cu1) && i + 1 < n {
            let cu2 = *vstd::slice::slice_index_get(s.raw, i + 1);
            if is_low_surrogate(cu2) {
                2
            } else {
                1
            }
        } else {
            1
        };
        proof {
            assert(step as int == step_at(s@, i as int));
        }
        i = i + step;
        k = k + 1;
    }
    proof {
        assert(utf16_rank_from(s@, i as int, off as int) == 0);
    }
    k
}

/// The code-unit offset where the code point of rank `n` begins in the
/// view, or the view's length when the rank meets or exceeds the count.
fn offset16_of_rank(s: &Utf16Str<'_>, n: usize) -> (r: usize)
    ensures
        r as int == utf16_offset_of(s@, n as int),
{
    let ln = s.raw.len();
    let mut i: usize = 0;
    let mut k: usize = 0;
    while k < n && i < ln
        invariant
            k <= n,
            i <= ln,
            ln == s@.len(),
            utf16_offset_of(s@, n as int) == utf16_advance(s@, i as int, n - k),
        decreases n - k,
    {
        let cu1 = *vstd::slice::slice_index_get(s.raw, i);
        let step: usize = if is_high_surrogate(cu1) && i + 1 < ln {
            let cu2 = *vstd::slice::slice_index_get(s.raw, i + 1);
            if is_low_surrogate(cu2) {
                2
            } else {
                1
            }
        } else {
            1
        };
        proof {
            assert(step as int == step_at(s@, i as int));
        }
        i = i + step;
        k = k + 1;
    }
    i
}

/// The rank of the code point that begins at byte offset `off` of the
/// text, `off` being a code-point boundary or the end of the text.
fn rank8_of_offset(s: &str, off: usize) -> (k: usize)
    requires
        utf8_boundary(s@, off as int),
    ensures
        k <= s@.len(),
        utf8_offset_of(s@, k as int) == off,
        forall|n: int| 0 <= n <= s@.len() && utf8_offset_of(s@, n) == off ==> n == k as int,
{
    let ghost chars = s@;
    let ghost nstar: int = choose|n: int|
        0 <= n <= chars.len() && utf8_offset_of(chars, n) == off;
    let mut it = s.chars();
    let mut pos: usize = 0;
    let mut k: usize = 0;
    while pos < off
        invariant
            k as int <= nstar,
            nstar <= chars.len(),
            utf8_offset_of(chars, nstar) == off as int,
            pos as int == utf8_offset_of(chars, k as int),
            it.remaining() == chars.skip(k as int),
        decreases off - pos,
    {
        proof {
            lemma_utf8_offset_of_mono(chars, k as int, nstar);
            assert((k as int) < nstar);
        }
        let c = match it.next() {
            Some(c) => c,
            None => {
                proof {
                    assert(false);
                }
                '\0'
            },
        };
        proof {
            assert(c == chars[k as int]);
            assert(chars.skip(k as int).drop_first() =~= chars.skip(k as int + 1));
            lemma_utf8_offset_of_mono(chars, k as int + 1, nstar);
        }
        let w = utf8_len_of(c);
        pos = pos + w;
        k = k + 1;
    }
    proof {
        lemma_utf8_offset_of_mono(chars, k as int, nstar);
        assert(pos == off);
        assert forall|n: int|
            0 <= n <= chars.len() && utf8_offset_of(chars, n) == off implies n == k as int by {
            if n < k as int {
                lemma_utf8_offset_of_mono(chars, n, k as int);
            }
            if (k as int) < n {
                lemma_utf8_offset_of_mono(chars, k as int, n);
            }
        };
    }
    k
}

/// The byte offset where the code point of rank `n` begins in the
/// text, or the text's byte length when the rank meets or exceeds the
/// count.
fn offset8_of_rank(s: &str, n: usize) -> (r: usize)
    ensures
        r as int == utf8_offset_of(s@, n as int),
{
    let ghost chars = s@;
    let b = s.as_bytes();
    proof {
        vstd::slice::axiom_spec_len(b);
    }
    let mut it = s.chars();
    let mut pos: usize = 0;
    let mut k: usize = 0;
    loop
        invariant
            k <= n,
            k <= chars.len(),
            pos as int == utf8_offset_of(chars, k as int),
            it.remaining() == chars.skip(k as int),
            b@ == vstd::utf8::encode_utf8(chars),
            b@.len() <= usize::MAX,
        ensures
            pos as int == utf8_offset_of(chars, n as int),
        decreases n - k,
    {
        if k == n {
            break ;
        }
        match it.next() {
            Some(c) => {
                proof {
                    assert(c == chars[k as int]);
                    assert(chars.skip(k as int).drop_first() =~= chars.skip(k as int + 1));
                    lemma_utf8_offset_of_le_total(chars, k as int + 1);
                }
                let w = utf8_len_of(c);
                pos = pos + w;
                k = k + 1;
            },
            None => {
                proof {
                    assert(chars.skip(k as int).len() == 0);
                    assert(k as int == chars.len());
                }
                break ;
            },
        }
    }
    pos
}

/// Assuming two strings hold the same text in their two encodings,
/// returns the UTF-16 code-unit offset equivalent to the given UTF-8
/// byte offset, which must lie on a code-point boundary (or at the
/// end) of the UTF-8 text.
pub fn utf8_offset_as_utf16_offset(
    utf16string: &Utf16Str<'_>,
    utf8string: &str,
    utf8offset: usize,
) -> (r: usize)
    requires
        utf8_boundary(utf8string@, utf8offset as int),
    ensures
        forall|n: int|
            0 <= n <= utf8string@.len() && utf8_offset_of(utf8string@, n) == utf8offset ==> r as int
                == utf16_offset_of(utf16string@, n),
{
    let rank = rank8_of_offset(utf8string, utf8offset);
    offset16_of_rank(utf16string, rank)
}

/// Assuming two strings hold the same text in their two encodings,
/// returns the UTF-16 code-unit offsets equivalent to the two given
/// UTF-8 byte offsets; the second offset must not precede the first,
/// and each is translated exactly as the single-offset function
/// translates it.
pub fn two_utf8_offsets_as_utf16_offsets(
    utf16string: &Utf16Str<'_>,
    utf8string: &str,
    utf8offset1: usize,
    utf8offset2: usize,
) -> (r: (usize, usize))
    requires
        utf8offset1 <= utf8offset2,
        utf8_boundary(utf8string@, utf8offset1 as int),
        utf8_boundary(utf8string@, utf8offset2 as int),
    ensures
        forall|n: int|
            0 <= n <= utf8string@.len() && utf8_offset_of(utf8string@, n) == utf8offset1 ==> r.0
                as int == utf16_offset_of(utf16string@, n),
        forall|n: int|
            0 <= n <= utf8string@.len() && utf8_offset_of(utf8string@, n) == utf8offset2 ==> r.1
                as int == utf16_offset_of(utf16string@, n),
{
    let first = utf8_offset_as_utf16_offset(utf16string, utf8string, utf8offset1);
    let second = utf8_offset_as_utf16_offset(utf16string, utf8string, utf8offset2);
    (first, second)
}

/// Assuming two strings hold the same text in their two encodings,
/// returns the UTF-8 byte offset equivalent to the given UTF-16
/// code-unit offset.
pub fn utf16_offset_as_utf8_offset(
    utf8string: &str,
    utf16string: &Utf16Str<'_>,
    utf16offset: usize,
) -> (r: usize)
    requires
        utf16offset <= utf16string@.len(),
    ensures
        r as int == utf8_offset_of(utf8string@, utf16_rank_of(utf16string@, utf16offset as int)),
{
    let rank = rank16_of_offset(utf16string, utf16offset);
    offset8_of_rank(utf8string, rank)
}

/// Assuming two strings hold the same text in their two encodings,
/// returns the UTF-8 byte offsets equivalent to the two given UTF-16
/// code-unit offsets; the second offset must not precede the first,
/// and each is translated exactly as the single-offset function
/// translates it.
pub fn two_utf16_offsets_as_utf8_offsets(
    utf8string: &str,
    utf16string: &Utf16Str<'_>,
    utf16offset1: usize,
    utf16offset2: usize,
) -> (r: (usize, usize))
    requires
        utf16offset1 <= utf16offset2 <= utf16string@.len(),
    ensures
        r.0 as int == utf8_offset_of(
            utf8string@,
            utf16_rank_of(utf16string@, utf16offset1 as int),
        ),
        r.1 as int == utf8_offset_of(
            utf8string@,
            utf16_rank_of(utf16string@, utf16offset2 as int),
        ),
{
    let first = utf16_offset_as_utf8_offset(utf8string, utf16string, utf16offset1);
    let second = utf16_offset_as_utf8_offset(utf8string, utf16string, utf16offset2);
    (first, second)
}

} // verus!
