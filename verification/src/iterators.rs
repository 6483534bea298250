//! Lazy, single-pass producers of the code points of a borrowed view: one
//! yielding the code points alone, one yielding (code-unit offset, code
//! point) pairs.
use crate::utils::char_at;
use crate::utils::decode_char;
use crate::utils::decode_utf16_from;
use crate::utils::is_high_surrogate;
use crate::utils::is_low_surrogate;
use crate::utils::step_at;
use crate::Utf16Str;
use vstd::prelude::*;

verus! {

/// Iterator over the code points of a view. At each step, a high
/// surrogate followed by a low surrogate decodes as one code point and
/// advances by two units; any other unit stands for itself and advances
/// by one.
pub struct Utf16Chars<'a> {
    pub slice: Utf16Str<'a>,
    pub index: usize,
}

impl<'a> Utf16Chars<'a> {
    /// The code units of the view this iterator walks.
    pub open spec fn units(self) -> Seq<u16> {
        self.slice@
    }

    /// The current position, in code units.
    pub open spec fn pos(self) -> usize {
        self.index
    }

    /// The code points this iterator has yet to yield.
    pub open spec fn remaining(self) -> Seq<char> {
        decode_utf16_from(self.units(), self.pos() as int)
    }

    /// Yields the next code point, or `None` once the view is exhausted.
    pub fn next(&mut self) -> (r: Option<char>)
        ensures
            final(self).units() == old(self).units(),
            old(self).remaining().len() > 0 ==> {
                &&& r == Some(old(self).remaining()[0])
                &&& final(self).remaining() == old(self).remaining().drop_first()
            },
            old(self).remaining().len() == 0 ==> r is None && *final(self) == *old(self),
    {
        let s = self.slice.raw;
        let i = self.index;
        if i < s.len() {
            proof {
                assert(old(self).remaining() =~= seq![char_at(s@, i as int)] + decode_utf16_from(
                    s@,
                    i + step_at(s@, i as int),
                ));
            }
            let cu1 = *vstd::slice::slice_index_get(s, i);
            if is_high_surrogate(cu1) && i + 1 < s.len() {
                let cu2 = *vstd::slice::slice_index_get(s, i + 1);
                if is_low_surrogate(cu2) {
                    self.index = i + 2;
                    proof {
                        assert(final(self).remaining() =~= old(self).remaining().drop_first());
                    }
                    return Some(decode_char(cu1, cu2));
                }
            }
            self.index = i + 1;
            proof {
                assert(final(self).remaining() =~= old(self).remaining().drop_first());
            }
            match char::from_u32(cu1 as u32) {
                Some(c) => {
                    proof {
                        vstd::utf8::char_u32_cast(c, cu1 as u32);
                    }
                    Some(c)
                },
                None => Some('\0'),
            }
        } else {
            None
        }
    }
}

/// Iterator over (starting code-unit offset, code point) pairs of a view,
/// decoding by the same pairing rule as [`Utf16Chars`].
pub struct Utf16CharIndices<'a> {
    pub slice: Utf16Str<'a>,
    pub index: usize,
}

impl<'a> Utf16CharIndices<'a> {
    /// The code units of the view this iterator walks.
    pub open spec fn units(self) -> Seq<u16> {
        self.slice@
    }

    /// The current position, in code units.
    pub open spec fn pos(self) -> usize {
        self.index
    }

    /// Yields the starting offset and the code point that begins there,
    /// or `None` once the view is exhausted.
    pub fn next(&mut self) -> (r: Option<(usize, char)>)
        ensures
            final(self).units() == old(self).units(),
            ({
                let s = old(self).units();
                let i = old(self).pos() as int;
                if i < s.len() {
                    &&& r == Some((old(self).pos(), char_at(s, i)))
                    &&& final(self).pos() == i + step_at(s, i)
                } else {
                    &&& r is None
                    &&& *final(self) == *old(self)
                }
            }),
    {
        let s = self.slice.raw;
        let i = self.index;
        if i < s.len() {
            let cu1 = *vstd::slice::slice_index_get(s, i);
            if is_high_surrogate(cu1) && i + 1 < s.len() {
                let cu2 = *vstd::slice::slice_index_get(s, i + 1);
                if is_low_surrogate(cu2) {
                    self.index = i + 2;
                    return Some((i, decode_char(cu1, cu2)));
                }
            }
            self.index = i + 1;
            match char::from_u32(cu1 as u32) {
                Some(c) => {
                    proof {
                        vstd::utf8::char_u32_cast(c, cu1 as u32);
                    }
                    Some((i, c))
                },
                None => Some((i, '\0')),
            }
        } else {
            None
        }
    }
}

} // verus!
