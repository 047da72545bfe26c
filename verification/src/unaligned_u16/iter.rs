//! Iteration over the elements of an [`UnalignedU16Slice`].

use vstd::prelude::*;
use vstd::slice::slice_subrange;

use crate::unaligned_u16::{decode_le, join_le, lemma_decode_skip_back, lemma_decode_skip_front, UnalignedU16Slice};

verus! {

/// The elements of a slice that have not been handed out yet.
pub struct UnalignedU16SliceIterator<'a> {
    slice: &'a [u8],
}

impl<'a> View for UnalignedU16SliceIterator<'a> {
    type V = Seq<u16>;

    closed spec fn view(&self) -> Seq<u16> {
        decode_le(self.slice@)
    }
}

impl<'a> UnalignedU16SliceIterator<'a> {
    #[verifier::type_invariant]
    spec fn even_length(self) -> bool {
        self.slice@.len() % 2 == 0
    }

    pub fn new(slice: &UnalignedU16Slice<'a>) -> (it: Self)
        ensures
            it@ == slice@,
    {
        proof {
            slice.lemma_view();
        }
        Self { slice: slice.raw() }
    }

    /// How many elements are left.
    pub fn remaining(&self) -> (n: usize)
        ensures
            n == self@.len(),
    {
        self.slice.len() / 2
    }

    /// Hands out the first remaining element.
    pub fn next(&mut self) -> (r: Option<u16>)
        ensures
            old(self)@.len() == 0 ==> r is None && final(self)@ == old(self)@,
            old(self)@.len() > 0 ==> r == Some(old(self)@[0]) && final(self)@ == old(self)@.drop_first(),
    {
        proof {
            use_type_invariant(&*self);
        }
        let bytes = self.slice;
        if bytes.is_empty() {
            return None;
        }
        let value = join_le(bytes[0], bytes[1]);
        proof {
            lemma_decode_skip_front(bytes@);
        }
        self.slice = slice_subrange(bytes, 2, bytes.len());
        Some(value)
    }

    /// Lower and upper bound of the number of elements left: both exact.
    pub fn size_hint(&self) -> (hint: (usize, Option<usize>))
        ensures
            hint.0 == self@.len(),
            hint.1 == Some(hint.0),
    {
        let rem = self.remaining();
        (rem, Some(rem))
    }

    /// Hands out the last remaining element.
    pub fn next_back(&mut self) -> (r: Option<u16>)
        ensures
            old(self)@.len() == 0 ==> r is None && final(self)@ == old(self)@,
            old(self)@.len() > 0 ==> r == Some(old(self)@.last()) && final(self)@ == old(self)@.drop_last(),
    {
        proof {
            use_type_invariant(&*self);
        }
        let bytes = self.slice;
        if bytes.is_empty() {
            return None;
        }
        let end = bytes.len();
        let value = join_le(bytes[end - 2], bytes[end - 1]);
        proof {
            lemma_decode_skip_back(bytes@);
        }
        self.slice = slice_subrange(bytes, 0, end - 2);
        Some(value)
    }
}

} // verus!
