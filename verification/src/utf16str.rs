//! Read-only operations of the borrowed UTF-16 view: length, iteration,
//! conversion to an owned buffer or to UTF-8 text, and case mapping
//! delegated to the native string type.
use crate::slice::SliceIndex;
use crate::utils::decode_utf16;
use crate::utils::encode_utf16;
use crate::Utf16CharIndices;
use crate::Utf16Chars;
use crate::Utf16Str;
use crate::Utf16String;
use vstd::prelude::*;

verus! {

/// The sequence of code points that native case folding lowers a
/// character sequence to; a function of the characters alone.
pub uninterp spec fn lower_of(s: Seq<char>) -> Seq<char>;

/// The sequence of code points that native case folding raises a
/// character sequence to; a function of the characters alone.
pub uninterp spec fn upper_of(s: Seq<char>) -> Seq<char>;

/// Relies on `String::push`: appends one character at the end of the
/// string.
#[verifier::external_body]
fn string_push(s: &mut String, c: char)
    ensures
        final(s)@ == old(s)@.push(c),
{
    s.push(c)
}

/// Relies on `str::to_lowercase`: the result depends on the characters
/// alone.
#[verifier::external_body]
fn str_to_lowercase(s: &str) -> (r: String)
    ensures
        r@ == lower_of(s@),
{
    s.to_lowercase()
}

/// Relies on `str::to_uppercase`: the result depends on the characters
/// alone.
#[verifier::external_body]
fn str_to_uppercase(s: &str) -> (r: String)
    ensures
        r@ == upper_of(s@),
{
    s.to_uppercase()
}

impl<'a> Utf16Str<'a> {
    /// Wraps a run of code units as a UTF-16 string slice. Any content
    /// is accepted: well-formedness is not required, and decoding is
    /// total.
    pub fn from_utf16(raw: &'a [u16]) -> (r: Utf16Str<'a>)
        ensures
            r@ == raw@,
    {
        Utf16Str { raw }
    }

    /// Returns the number of UTF-16 code units representing the string.
    pub fn len(&self) -> (r: usize)
        ensures
            r == self@.len(),
    {
        self.raw.len()
    }

    /// True when the string holds no code units.
    pub fn is_empty(&self) -> (r: bool)
        ensures
            r == (self@.len() == 0),
    {
        self.raw.len() == 0
    }

    /// The UTF-16 code units of the string.
    pub fn code_units(&self) -> (r: &'a [u16])
        ensures
            r@ == self@,
    {
        self.raw
    }

    /// Iterates the code points in the string.
    pub fn chars(&self) -> (it: Utf16Chars<'a>)
        ensures
            it.units() == self@,
            it.pos() == 0,
            it.remaining() == decode_utf16(self@),
    {
        Utf16Chars { slice: *self, index: 0 }
    }

    /// Iterates the starting indices and the code points in the string.
    pub fn char_indices(&self) -> (it: Utf16CharIndices<'a>)
        ensures
            it.units() == self@,
            it.pos() == 0,
    {
        Utf16CharIndices { slice: *self, index: 0 }
    }

    /// The single code unit at `index`. Reading past the end is a
    /// programmer error and lies outside this function's domain.
    pub fn unit_at(&self, index: usize) -> (r: u16)
        requires
            index < self@.len(),
        ensures
            r == self@[index as int],
    {
        *vstd::slice::slice_index_get(self.raw, index)
    }

    /// Checked slicing by any range shape: the sub-view the range
    /// describes, or `None` when the range is invalid for this view.
    pub fn get<I: SliceIndex>(&self, index: I) -> (r: Option<Utf16Str<'a>>)
        ensures
            index.valid_for(self@.len() as int) <==> r is Some,
            r is Some ==> r->0@ == self@.subrange(
                index.start_of(self@.len() as int),
                index.end_of(self@.len() as int),
            ),
    {
        index.get(self)
    }

    /// Unchecked slicing by any range shape: the caller guarantees the
    /// range is valid for this view.
    pub fn get_unchecked<I: SliceIndex>(&self, index: I) -> (r: Utf16Str<'a>)
        requires
            index.valid_for(self@.len() as int),
        ensures
            r@ == self@.subrange(
                index.start_of(self@.len() as int),
                index.end_of(self@.len() as int),
            ),
    {
        index.get_unchecked(self)
    }

    /// Copies the code units into an owned buffer.
    pub fn to_owned(&self) -> (r: Utf16String)
        ensures
            r@ == self@,
    {
        Utf16String { buf: vstd::slice::slice_to_vec(self.raw) }
    }

    /// Decodes every code point and collects them as UTF-8 text.
    pub fn to_utf8(&self) -> (r: String)
        ensures
            r@ == decode_utf16(self@),
    {
        let mut r = String::new();
        let mut it = self.chars();
        loop
            invariant
                r@ + it.remaining() == decode_utf16(self@),
            ensures
                r@ == decode_utf16(self@),
            decreases it.remaining().len(),
        {
            let ghost prev = r@;
            let ghost rem0 = it.remaining();
            match it.next() {
                Some(c) => {
                    string_push(&mut r, c);
                    proof {
                        assert(prev.push(rem0[0]) + rem0.drop_first() =~= prev + rem0);
                    }
                },
                None => {
                    proof {
                        assert(r@ + it.remaining() =~= r@);
                    }
                    break ;
                },
            }
        }
        r
    }

    /// Lowercases the string through the native string type's case
    /// folding, re-encoding the folded text as UTF-16.
    pub fn to_lowercase(&self) -> (r: Utf16String)
        ensures
            r@ == encode_utf16(lower_of(decode_utf16(self@))),
    {
        let t = self.to_utf8();
        let folded = str_to_lowercase(t.as_str());
        Utf16String::from_utf8_str(folded.as_str())
    }

    /// Uppercases the string through the native string type's case
    /// folding, re-encoding the folded text as UTF-16.
    pub fn to_uppercase(&self) -> (r: Utf16String)
        ensures
            r@ == encode_utf16(upper_of(decode_utf16(self@))),
    {
        let t = self.to_utf8();
        let folded = str_to_uppercase(t.as_str());
        Utf16String::from_utf8_str(folded.as_str())
    }
}

} // verus!
