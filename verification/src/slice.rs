//! The range-indexing protocol: a closed family of range shapes, each
//! validating itself against a view's length in code units and producing
//! a narrower view. Slicing is code-unit-granular on purpose: no shape
//! inspects surrogate boundaries, so a sub-view may begin or end with
//! half of a surrogate pair, which is itself a valid code unit.
use crate::Utf16Str;
use core::ops::Range;
use core::ops::RangeFrom;
use core::ops::RangeFull;
use core::ops::RangeInclusive;
use core::ops::RangeTo;
use core::ops::RangeToInclusive;
use vstd::prelude::*;

verus! {

/// Relies on `core::ops::RangeFull`: the unit range shape standing for
/// the whole extent.
#[verifier::external_type_specification]
pub struct ExRangeFull(RangeFull);

/// Relies on `core::ops::RangeFrom`: a range with a public `start`
/// field and no end bound.
#[verifier::external_type_specification]
#[verifier::reject_recursive_types(Idx)]
pub struct ExRangeFrom<Idx>(RangeFrom<Idx>);

/// Relies on `core::ops::RangeTo`: a range with a public `end` field
/// and no start bound.
#[verifier::external_type_specification]
#[verifier::reject_recursive_types(Idx)]
pub struct ExRangeTo<Idx>(RangeTo<Idx>);

/// Relies on `core::ops::RangeToInclusive`: a range with a public
/// inclusive `end` field and no start bound.
#[verifier::external_type_specification]
#[verifier::reject_recursive_types(Idx)]
pub struct ExRangeToInclusive<Idx>(RangeToInclusive<Idx>);

/// Relies on `RangeInclusive::start`: returns the stored lower bound.
pub assume_specification<'r, Idx>[ RangeInclusive::<Idx>::start ](r: &'r RangeInclusive<Idx>) -> (s:
    &'r Idx)
    ensures
        *s == r@.start,
;

/// Relies on `RangeInclusive::end`: returns the stored upper bound.
pub assume_specification<'r, Idx>[ RangeInclusive::<Idx>::end ](r: &'r RangeInclusive<Idx>) -> (e:
    &'r Idx)
    ensures
        *e == r@.end,
;

/// Marker sealing the closed family of range shapes that can index a
/// UTF-16 string slice.
pub trait SealedSliceIndex {

}

impl SealedSliceIndex for RangeFull {

}

impl SealedSliceIndex for Range<usize> {

}

impl SealedSliceIndex for RangeFrom<usize> {

}

impl SealedSliceIndex for RangeTo<usize> {

}

impl SealedSliceIndex for RangeInclusive<usize> {

}

impl SealedSliceIndex for RangeToInclusive<usize> {

}

/// A range shape that can index a UTF-16 string slice, yielding the
/// narrower view it describes. Each shape resolves, against a view of
/// `len` code units, to a half-open window `[start_of, end_of)`.
pub trait SliceIndex: SealedSliceIndex + Sized {
    /// Whether the range is valid for a view of `len` code units.
    spec fn valid_for(self, len: int) -> bool;

    /// The resolved start of the window, in code units.
    spec fn start_of(self, len: int) -> int;

    /// The resolved end (exclusive) of the window, in code units.
    spec fn end_of(self, len: int) -> int;

    /// Checked lookup: the sub-view when the range is valid for the
    /// given view, and `None` otherwise.
    fn get<'a>(self, slice: &Utf16Str<'a>) -> (r: Option<Utf16Str<'a>>)
        ensures
            self.valid_for(slice@.len() as int) <==> r is Some,
            r is Some ==> r->0@ == slice@.subrange(
                self.start_of(slice@.len() as int),
                self.end_of(slice@.len() as int),
            ),
    ;

    /// Unchecked lookup: the caller guarantees that the range is valid.
    fn get_unchecked<'a>(self, slice: &Utf16Str<'a>) -> (r: Utf16Str<'a>)
        requires
            self.valid_for(slice@.len() as int),
        ensures
            r@ == slice@.subrange(
                self.start_of(slice@.len() as int),
                self.end_of(slice@.len() as int),
            ),
    ;

    /// Indexing: an invalid range is a programmer error and lies
    /// outside this function's domain.
    fn index<'a>(self, slice: &Utf16Str<'a>) -> (r: Utf16Str<'a>)
        requires
            self.valid_for(slice@.len() as int),
        ensures
            r@ == slice@.subrange(
                self.start_of(slice@.len() as int),
                self.end_of(slice@.len() as int),
            ),
    ;
}

impl SliceIndex for RangeFull {
    open spec fn valid_for(self, len: int) -> bool {
        true
    }

    open spec fn start_of(self, len: int) -> int {
        0
    }

    open spec fn end_of(self, len: int) -> int {
        len
    }

    fn get<'a>(self, slice: &Utf16Str<'a>) -> (r: Option<Utf16Str<'a>>) {
        assert(slice@.subrange(0, slice@.len() as int) =~= slice@);
        Some(*slice)
    }

    fn get_unchecked<'a>(self, slice: &Utf16Str<'a>) -> (r: Utf16Str<'a>) {
        assert(slice@.subrange(0, slice@.len() as int) =~= slice@);
        *slice
    }

    fn index<'a>(self, slice: &Utf16Str<'a>) -> (r: Utf16Str<'a>) {
        assert(slice@.subrange(0, slice@.len() as int) =~= slice@);
        *slice
    }
}

impl SliceIndex for Range<usize> {
    open spec fn valid_for(self, len: int) -> bool {
        self.start <= self.end <= len
    }

    open spec fn start_of(self, len: int) -> int {
        self.start as int
    }

    open spec fn end_of(self, len: int) -> int {
        self.end as int
    }

    fn get<'a>(self, slice: &Utf16Str<'a>) -> (r: Option<Utf16Str<'a>>) {
        if self.start <= self.end && self.end <= slice.raw.len() {
            Some(Utf16Str { raw: vstd::slice::slice_subrange(slice.raw, self.start, self.end) })
        } else {
            None
        }
    }

    fn get_unchecked<'a>(self, slice: &Utf16Str<'a>) -> (r: Utf16Str<'a>) {
        Utf16Str { raw: vstd::slice::slice_subrange(slice.raw, self.start, self.end) }
    }

    fn index<'a>(self, slice: &Utf16Str<'a>) -> (r: Utf16Str<'a>) {
        Utf16Str { raw: vstd::slice::slice_subrange(slice.raw, self.start, self.end) }
    }
}

impl SliceIndex for RangeFrom<usize> {
    open spec fn valid_for(self, len: int) -> bool {
        self.start <= len
    }

    open spec fn start_of(self, len: int) -> int {
        self.start as int
    }

    open spec fn end_of(self, len: int) -> int {
        len
    }

    fn get<'a>(self, slice: &Utf16Str<'a>) -> (r: Option<Utf16Str<'a>>) {
        if self.start <= slice.raw.len() {
            Some(
                Utf16Str {
                    raw: vstd::slice::slice_subrange(slice.raw, self.start, slice.raw.len()),
                },
            )
        } else {
            None
        }
    }

    fn get_unchecked<'a>(self, slice: &Utf16Str<'a>) -> (r: Utf16Str<'a>) {
        Utf16Str { raw: vstd::slice::slice_subrange(slice.raw, self.start, slice.raw.len()) }
    }

    fn index<'a>(self, slice: &Utf16Str<'a>) -> (r: Utf16Str<'a>) {
        Utf16Str { raw: vstd::slice::slice_subrange(slice.raw, self.start, slice.raw.len()) }
    }
}

impl SliceIndex for RangeTo<usize> {
    open spec fn valid_for(self, len: int) -> bool {
        self.end <= len
    }

    open spec fn start_of(self, len: int) -> int {
        0
    }

    open spec fn end_of(self, len: int) -> int {
        self.end as int
    }

    fn get<'a>(self, slice: &Utf16Str<'a>) -> (r: Option<Utf16Str<'a>>) {
        if self.end <= slice.raw.len() {
            Some(Utf16Str { raw: vstd::slice::slice_subrange(slice.raw, 0, self.end) })
        } else {
            None
        }
    }

    fn get_unchecked<'a>(self, slice: &Utf16Str<'a>) -> (r: Utf16Str<'a>) {
        Utf16Str { raw: vstd::slice::slice_subrange(slice.raw, 0, self.end) }
    }

    fn index<'a>(self, slice: &Utf16Str<'a>) -> (r: Utf16Str<'a>) {
        Utf16Str { raw: vstd::slice::slice_subrange(slice.raw, 0, self.end) }
    }
}

impl SliceIndex for RangeInclusive<usize> {
    /// An inclusive range reduces to the half-open range ending one
    /// past its upper bound; an upper bound at the maximum representable
    /// index cannot be increased and is invalid.
    open spec fn valid_for(self, len: int) -> bool {
        &&& self@.end != usize::MAX
        &&& self@.start <= self@.end + 1 <= len
    }

    open spec fn start_of(self, len: int) -> int {
        self@.start as int
    }

    open spec fn end_of(self, len: int) -> int {
        self@.end + 1
    }

    fn get<'a>(self, slice: &Utf16Str<'a>) -> (r: Option<Utf16Str<'a>>) {
        let start = *self.start();
        let end = *self.end();
        if end == usize::MAX {
            None
        } else if start <= end + 1 && end + 1 <= slice.raw.len() {
            Some(Utf16Str { raw: vstd::slice::slice_subrange(slice.raw, start, end + 1) })
        } else {
            None
        }
    }

    fn get_unchecked<'a>(self, slice: &Utf16Str<'a>) -> (r: Utf16Str<'a>) {
        let start = *self.start();
        let end = *self.end();
        Utf16Str { raw: vstd::slice::slice_subrange(slice.raw, start, end + 1) }
    }

    fn index<'a>(self, slice: &Utf16Str<'a>) -> (r: Utf16Str<'a>) {
        let start = *self.start();
        let end = *self.end();
        Utf16Str { raw: vstd::slice::slice_subrange(slice.raw, start, end + 1) }
    }
}

impl SliceIndex for RangeToInclusive<usize> {
    /// An inclusive range reduces to the half-open range ending one
    /// past its upper bound; an upper bound at the maximum representable
    /// index cannot be increased and is invalid.
    open spec fn valid_for(self, len: int) -> bool {
        &&& self.end != usize::MAX
        &&& self.end + 1 <= len
    }

    open spec fn start_of(self, len: int) -> int {
        0
    }

    open spec fn end_of(self, len: int) -> int {
        self.end + 1
    }

    fn get<'a>(self, slice: &Utf16Str<'a>) -> (r: Option<Utf16Str<'a>>) {
        if self.end == usize::MAX {
            None
        } else if self.end + 1 <= slice.raw.len() {
            Some(Utf16Str { raw: vstd::slice::slice_subrange(slice.raw, 0, self.end + 1) })
        } else {
            None
        }
    }

    fn get_unchecked<'a>(self, slice: &Utf16Str<'a>) -> (r: Utf16Str<'a>) {
        Utf16Str { raw: vstd::slice::slice_subrange(slice.raw, 0, self.end + 1) }
    }

    fn index<'a>(self, slice: &Utf16Str<'a>) -> (r: Utf16Str<'a>) {
        Utf16Str { raw: vstd::slice::slice_subrange(slice.raw, 0, self.end + 1) }
    }
}

} // verus!
