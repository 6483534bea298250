//! A UTF-16 string library: a borrowed, non-owning view over a run of 16-bit
//! code units, and an owned, growable buffer of the same, with code-point
//! iteration, code-unit slicing, pair-preserving mutation, and offset
//! translation between UTF-8 byte offsets and UTF-16 code-unit offsets.
use vstd::prelude::*;

pub mod slice;
pub mod utils;
mod iterators;
mod utf16str;
mod utf16string;

pub use iterators::Utf16CharIndices;
pub use iterators::Utf16Chars;

verus! {

/// A UTF-16 string slice: a non-owning window over a contiguous run of
/// UCS-2 code units. Indexing this type is in UTF-16 code units (not
/// bytes), which are represented by `u16`. The content is not required
/// to be well-formed UTF-16: unpaired surrogates are tolerated and
/// decoded permissively.
#[derive(Clone, Copy)]
pub struct Utf16Str<'a> {
    /// UTF-16 code units.
    pub raw: &'a [u16],
}

impl<'a> View for Utf16Str<'a> {
    type V = Seq<u16>;

    open spec fn view(&self) -> Seq<u16> {
        self.raw@
    }
}

/// An owned UTF-16 string: a growable, exclusively-owned sequence of
/// UCS-2 code units. Indexing this type is in UTF-16 code units (not
/// bytes), which are represented by `u16`.
pub struct Utf16String {
    /// UTF-16 code units.
    pub buf: Vec<u16>,
}

impl View for Utf16String {
    type V = Seq<u16>;

    open spec fn view(&self) -> Seq<u16> {
        self.buf@
    }
}

} // verus!
