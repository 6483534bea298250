//! Mutation and construction of the owned UTF-16 buffer: push, insert,
//! remove and pop keep whole code points together, inserting or removing
//! the full one- or two-unit encoding at a time.
use crate::Utf16CharIndices;
use crate::Utf16Chars;
use crate::slice::SliceIndex;
use crate::utils::char_at;
use crate::utils::decode_char;
use crate::utils::decode_utf16;
use crate::utils::encode_char;
use crate::utils::encode_utf16;
use crate::utils::is_high_surrogate;
use crate::utils::is_low_surrogate;
use crate::utils::lemma_encode_utf16_push;
use crate::utils::spec_encode_char;
use crate::utils::step_at;
use crate::Utf16Str;
use crate::Utf16String;
use vstd::prelude::*;
use vstd::std_specs::iter::IteratorSpec;

verus! {

broadcast use vstd::string::group_string_axioms;

impl Utf16String {
    /// Creates an empty UTF-16 string.
    pub fn new() -> (r: Utf16String)
        ensures
            r@ == Seq::<u16>::empty(),
    {
        Utf16String { buf: Vec::new() }
    }

    /// Borrows the whole buffer as a UTF-16 string slice.
    pub fn as_utf16_str(&self) -> (r: Utf16Str<'_>)
        ensures
            r@ == self@,
    {
        Utf16Str { raw: self.buf.as_slice() }
    }

    /// Returns the number of UTF-16 code units representing the string.
    pub fn len(&self) -> (r: usize)
        ensures
            r == self@.len(),
    {
        self.buf.len()
    }

    /// True when the buffer holds no code units.
    pub fn is_empty(&self) -> (r: bool)
        ensures
            r == (self@.len() == 0),
    {
        self.buf.len() == 0
    }

    /// Iterates the code points in the string.
    pub fn chars(&self) -> (it: Utf16Chars<'_>)
        ensures
            it.units() == self@,
            it.pos() == 0,
            it.remaining() == decode_utf16(self@),
    {
        self.as_utf16_str().chars()
    }

    /// Iterates the starting indices and the code points in the string.
    pub fn char_indices(&self) -> (it: Utf16CharIndices<'_>)
        ensures
            it.units() == self@,
            it.pos() == 0,
    {
        self.as_utf16_str().char_indices()
    }

    /// Checked slicing by any range shape: the sub-view the range
    /// describes, or `None` when the range is invalid for this buffer.
    pub fn get<I: SliceIndex>(&self, index: I) -> (r: Option<Utf16Str<'_>>)
        ensures
            index.valid_for(self@.len() as int) <==> r is Some,
            r is Some ==> r->0@ == self@.subrange(
                index.start_of(self@.len() as int),
                index.end_of(self@.len() as int),
            ),
    {
        index.get(&self.as_utf16_str())
    }

    /// Decodes every code point and collects them as UTF-8 text.
    pub fn to_utf8(&self) -> (r: String)
        ensures
            r@ == decode_utf16(self@),
    {
        self.as_utf16_str().to_utf8()
    }

    /// Truncates the buffer to the empty string.
    pub fn clear(&mut self)
        ensures
            final(self)@ == Seq::<u16>::empty(),
    {
        self.buf.clear();
    }

    /// Appends the 1- or 2-unit encoding of a code point.
    pub fn push(&mut self, ch: char)
        ensures
            final(self)@ == old(self)@ + spec_encode_char(ch),
    {
        let units = encode_char(ch);
        if units.len() == 1 {
            self.buf.push(units[0]);
        } else {
            self.buf.push(units[0]);
            self.buf.push(units[1]);
        }
        assert(self@ =~= old(self)@ + spec_encode_char(ch));
    }

    /// Appends all of another view's code units verbatim.
    pub fn push_utf16_str(&mut self, string: &Utf16Str<'_>)
        ensures
            final(self)@ == old(self)@ + string@,
    {
        let n = string.raw.len();
        let mut i: usize = 0;
        while i < n
            invariant
                i <= n,
                n == string@.len(),
                self@ == old(self)@ + string@.take(i as int),
            decreases n - i,
        {
            self.buf.push(*vstd::slice::slice_index_get(string.raw, i));
            assert(self@ =~= old(self)@ + string@.take(i + 1));
            i = i + 1;
        }
        assert(self@ =~= old(self)@ + string@);
    }

    /// Decodes each code point of the source text and appends its
    /// encoding.
    pub fn push_utf8_str(&mut self, string: &str)
        ensures
            final(self)@ == old(self)@ + encode_utf16(string@),
    {
        let ghost all = string@;
        let ghost mut k: int = 0;
        let mut it = string.chars();
        loop
            invariant
                0 <= k <= all.len(),
                it.remaining() == all.skip(k),
                self@ == old(self)@ + encode_utf16(all.take(k)),
            ensures
                self@ == old(self)@ + encode_utf16(all),
            decreases all.len() - k,
        {
            match it.next() {
                Some(c) => {
                    proof {
                        assert(all.skip(k)[0] == all[k]);
                        assert(all.skip(k).drop_first() =~= all.skip(k + 1));
                        assert(all.take(k).push(all[k]) =~= all.take(k + 1));
                        lemma_encode_utf16_push(all.take(k), c);
                    }
                    self.push(c);
                    proof {
                        k = k + 1;
                    }
                },
                None => {
                    proof {
                        assert(all.skip(k).len() == 0);
                        assert(k == all.len());
                        assert(all.take(k) =~= all);
                    }
                    break ;
                },
            }
        }
        assert(self@ =~= old(self)@ + encode_utf16(all));
    }

    /// Builds a buffer from a UTF-8 source text: each of its code points
    /// is encoded in turn.
    pub fn from_utf8_str(string: &str) -> (r: Utf16String)
        ensures
            r@ == encode_utf16(string@),
    {
        let mut r = Utf16String::new();
        r.push_utf8_str(string);
        assert(r@ =~= encode_utf16(string@));
        r
    }

    /// Inserts the 1- or 2-unit encoding of a code point at `index`,
    /// shifting later units right.
    pub fn insert(&mut self, index: usize, ch: char)
        requires
            index <= old(self)@.len(),
        ensures
            final(self)@ == old(self)@.take(index as int) + spec_encode_char(ch) + old(
                self,
            )@.skip(index as int),
    {
        let units = encode_char(ch);
        if units.len() == 1 {
            self.buf.insert(index, units[0]);
        } else {
            self.buf.insert(index, units[0]);
            proof {
                vstd::std_specs::vec::axiom_spec_len(&self.buf);
            }
            self.buf.insert(index + 1, units[1]);
        }
        assert(self@ =~= old(self)@.take(index as int) + spec_encode_char(ch) + old(
            self,
        )@.skip(index as int));
    }

    /// Inserts all of another view's code units verbatim, starting at
    /// `index`.
    pub fn insert_utf16_str(&mut self, index: usize, string: &Utf16Str<'_>)
        requires
            index <= old(self)@.len(),
        ensures
            final(self)@ == old(self)@.take(index as int) + string@ + old(self)@.skip(
                index as int,
            ),
    {
        let n = string.raw.len();
        let mut i: usize = 0;
        assert(old(self)@ =~= old(self)@.take(index as int) + string@.take(0) + old(self)@.skip(
            index as int,
        ));
        while i < n
            invariant
                i <= n,
                n == string@.len(),
                index <= old(self)@.len(),
                index + i <= self@.len(),
                self@ == old(self)@.take(index as int) + string@.take(i as int) + old(
                    self,
                )@.skip(index as int),
            decreases n - i,
        {
            proof {
                vstd::std_specs::vec::axiom_spec_len(&self.buf);
            }
            let ghost prev = self@;
            let u = *vstd::slice::slice_index_get(string.raw, i);
            self.buf.insert(index + i, u);
            proof {
                let pos = (index + i) as int;
                let a = old(self)@.take(index as int);
                let b = string@.take(i as int);
                let rest = old(self)@.skip(index as int);
                assert(prev.subrange(0, pos) =~= a + b);
                assert(prev.subrange(pos, prev.len() as int) =~= rest);
                assert(self@ == prev.subrange(0, pos).push(u) + prev.subrange(
                    pos,
                    prev.len() as int,
                ));
                assert((a + b).push(u) =~= a + string@.take(i + 1));
                assert(self@ =~= old(self)@.take(index as int) + string@.take(i + 1) + old(
                    self,
                )@.skip(index as int));
            }
            i = i + 1;
        }
        assert(self@ =~= old(self)@.take(index as int) + string@ + old(self)@.skip(
            index as int,
        ));
    }

    /// Decodes each code point of the source text and inserts its
    /// encoding, starting at `index`.
    pub fn insert_utf8_str(&mut self, index: usize, string: &str)
        requires
            index <= old(self)@.len(),
        ensures
            final(self)@ == old(self)@.take(index as int) + encode_utf16(string@) + old(
                self,
            )@.skip(index as int),
    {
        let ghost all = string@;
        let ghost mut k: int = 0;
        let mut at = index;
        assert(old(self)@ =~= old(self)@.take(index as int) + encode_utf16(all.take(0)) + old(
            self,
        )@.skip(index as int));
        let mut it = string.chars();
        loop
            invariant
                0 <= k <= all.len(),
                it.remaining() == all.skip(k),
                at == index + encode_utf16(all.take(k)).len(),
                self@ == old(self)@.take(index as int) + encode_utf16(all.take(k)) + old(
                    self,
                )@.skip(index as int),
                index <= old(self)@.len(),
            ensures
                self@ == old(self)@.take(index as int) + encode_utf16(all) + old(self)@.skip(
                    index as int,
                ),
            decreases all.len() - k,
        {
            match it.next() {
                Some(c) => {
                    proof {
                        assert(all.skip(k)[0] == all[k]);
                        assert(all.skip(k).drop_first() =~= all.skip(k + 1));
                        assert(all.take(k).push(all[k]) =~= all.take(k + 1));
                        lemma_encode_utf16_push(all.take(k), c);
                    }
                    self.insert(at, c);
                    let step: usize = if (c as u32) < 0x10000 {
                        1
                    } else {
                        2
                    };
                    proof {
                        vstd::std_specs::vec::axiom_spec_len(&self.buf);
                        k = k + 1;
                        assert(self@ =~= old(self)@.take(index as int) + encode_utf16(
                            all.take(k),
                        ) + old(self)@.skip(index as int));
                        assert(at + step == index + encode_utf16(all.take(k)).len());
                        assert(at + step <= self@.len());
                    }
                    at = at + step;
                },
                None => {
                    proof {
                        assert(all.skip(k).len() == 0);
                        assert(k == all.len());
                        assert(all.take(k) =~= all);
                    }
                    break ;
                },
            }
        }
        assert(self@ =~= old(self)@.take(index as int) + encode_utf16(all) + old(
            self,
        )@.skip(index as int));
    }

    /// Removes the whole code point starting at `index`: a surrogate
    /// pair is removed as one, any other unit on its own. Returns the
    /// code point that was removed.
    pub fn remove(&mut self, index: usize) -> (c: char)
        requires
            index < old(self)@.len(),
        ensures
            c == char_at(old(self)@, index as int),
            final(self)@ == old(self)@.take(index as int) + old(self)@.skip(
                index as int + step_at(old(self)@, index as int),
            ),
    {
        proof {
            vstd::std_specs::vec::axiom_spec_len(&self.buf);
        }
        let cu1 = self.buf[index];
        if is_high_surrogate(cu1) && index + 1 < self.buf.len() {
            let cu2 = self.buf[index + 1];
            if is_low_surrogate(cu2) {
                self.buf.remove(index);
                self.buf.remove(index);
                assert(self@ =~= old(self)@.take(index as int) + old(self)@.skip(
                    index as int + 2,
                ));
                return decode_char(cu1, cu2);
            }
        }
        self.buf.remove(index);
        assert(self@ =~= old(self)@.take(index as int) + old(self)@.skip(index as int + 1));
        match char::from_u32(cu1 as u32) {
            Some(c) => {
                proof {
                    vstd::utf8::char_u32_cast(c, cu1 as u32);
                }
                c
            },
            None => '\0',
        }
    }

    /// Removes the whole code point at the end of the buffer: a
    /// surrogate pair is removed as one, any other unit on its own.
    /// Returns the removed code point, or `None` on an empty buffer.
    pub fn pop(&mut self) -> (r: Option<char>)
        ensures
            old(self)@.len() == 0 ==> r is None && final(self)@ == old(self)@,
            old(self)@.len() > 0 ==> ({
                let s = old(self)@;
                let l = s.len() as int;
                &&& r == Some(char_at(s, l - step_at(s, l - 2)))
                &&& final(self)@ == s.take(l - step_at(s, l - 2))
            }),
    {
        let l = self.buf.len();
        if l == 0 {
            return None;
        }
        let i = l - 1;
        let cu2 = self.buf[i];
        if is_low_surrogate(cu2) && l > 1 {
            let cu1 = self.buf[i - 1];
            if is_high_surrogate(cu1) {
                self.buf.truncate(l - 2);
                assert(self@ =~= old(self)@.take(l - 2));
                return Some(decode_char(cu1, cu2));
            }
        }
        self.buf.truncate(i);
        assert(self@ =~= old(self)@.take(l - 1));
        match char::from_u32(cu2 as u32) {
            Some(c) => {
                proof {
                    vstd::utf8::char_u32_cast(c, cu2 as u32);
                }
                Some(c)
            },
            None => Some('\0'),
        }
    }
}

impl Default for Utf16String {
    /// The empty UTF-16 string.
    fn default() -> (r: Self)
        ensures
            r@ == Seq::<u16>::empty(),
    {
        Utf16String::new()
    }
}

} // verus!
