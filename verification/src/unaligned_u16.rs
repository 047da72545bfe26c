//! Views of byte slices as sequences of little-endian `u16` values, without
//! any requirement on the alignment of the bytes.

use vstd::prelude::*;
use vstd::std_specs::convert::TryFromSpecImpl;

pub mod error;
pub mod iter;

verus! {

/// The value of the little-endian pair `lo`, `hi`.
pub open spec fn le_u16(lo: u8, hi: u8) -> u16 {
    (lo as int + 256 * (hi as int)) as u16
}

/// The `u16` values that an even number of bytes encodes, two bytes each,
/// low byte first.
pub open spec fn decode_le(bytes: Seq<u8>) -> Seq<u16> {
    Seq::new((bytes.len() / 2) as nat, |i: int| le_u16(bytes[2 * i], bytes[2 * i + 1]))
}

/// Combines a little-endian byte pair into the `u16` it encodes.
pub fn join_le(lo: u8, hi: u8) -> (value: u16)
    ensures
        value == le_u16(lo, hi),
{
    let value: u16 = ((hi as u16) << 8) | (lo as u16);
    assert(((hi as u16) << 8) | (lo as u16) == (lo as u16) + 256 * (hi as u16)) by (bit_vector);
    value
}

/// Dropping the first pair of bytes drops the first decoded value.
pub proof fn lemma_decode_skip_front(bytes: Seq<u8>)
    requires
        bytes.len() % 2 == 0,
        bytes.len() >= 2,
    ensures
        decode_le(bytes.subrange(2, bytes.len() as int)) == decode_le(bytes).drop_first(),
{
    let rest = bytes.subrange(2, bytes.len() as int);
    assert(decode_le(rest) =~= decode_le(bytes).drop_first());
}

/// Dropping the last pair of bytes drops the last decoded value.
pub proof fn lemma_decode_skip_back(bytes: Seq<u8>)
    requires
        bytes.len() % 2 == 0,
        bytes.len() >= 2,
    ensures
        decode_le(bytes.subrange(0, bytes.len() - 2)) == decode_le(bytes).drop_last(),
{
    let rest = bytes.subrange(0, bytes.len() - 2);
    assert(decode_le(rest) =~= decode_le(bytes).drop_last());
}

/// A borrowed byte slice of even length, read as little-endian `u16` values.
#[derive(Debug, Clone, Copy, PartialEq, Eq, PartialOrd, Ord, Hash)]
pub struct UnalignedU16Slice<'a>(&'a [u8]);

impl<'a> View for UnalignedU16Slice<'a> {
    type V = Seq<u16>;

    closed spec fn view(&self) -> Seq<u16> {
        decode_le(self.0@)
    }
}

impl<'a> UnalignedU16Slice<'a> {
    #[verifier::type_invariant]
    spec fn even_length(self) -> bool {
        self.0@.len() % 2 == 0
    }

    /// The underlying bytes.
    pub closed spec fn bytes(self) -> Seq<u8> {
        self.0@
    }

    /// The view is the decoding of the bytes, and holds half as many values.
    pub proof fn lemma_view(self)
        ensures
            self@ == decode_le(self.bytes()),
            self@.len() == self.bytes().len() / 2,
    {
    }

    /// The slice that reads `bytes`, where their number is even.
    pub closed spec fn of(bytes: &'a [u8]) -> Self {
        UnalignedU16Slice(bytes)
    }

    /// What the slice that reads `bytes` holds.
    pub proof fn lemma_of(bytes: &'a [u8])
        ensures
            Self::of(bytes).bytes() == bytes@,
            Self::of(bytes)@ == decode_le(bytes@),
    {
    }

    /// Wraps `slice`, or reports that its length is odd.
    pub fn new(slice: &'a [u8]) -> (r: Result<Self, error::BadByteLength>)
        ensures
            r is Ok <==> slice@.len() % 2 == 0,
            r matches Ok(s) ==> s == Self::of(slice) && s.bytes() == slice@ && s@ == decode_le(
                slice@,
            ),
            r matches Err(e) ==> e == error::BadByteLength,
    {
        if slice.len() % 2 != 0 {
            return Err(error::BadByteLength);
        }
        Ok(Self(slice))
    }

    /// Wraps a slice that the caller knows to be of even length.
    pub fn new_unchecked(slice: &'a [u8]) -> (s: Self)
        requires
            slice@.len() % 2 == 0,
        ensures
            s.bytes() == slice@,
            s@ == decode_le(slice@),
    {
        Self(slice)
    }

    /// The number of `u16` elements.
    pub fn len(&self) -> (n: usize)
        ensures
            n == self@.len(),
            n == self.bytes().len() / 2,
    {
        self.raw().len() / 2
    }

    pub fn is_empty(&self) -> (b: bool)
        ensures
            b <==> self@.len() == 0,
    {
        proof {
            use_type_invariant(self);
        }
        self.0.is_empty()
    }

    /// The number of bytes, twice the number of elements.
    pub fn byte_len(&self) -> (n: usize)
        ensures
            n == self.bytes().len(),
            n == 2 * self@.len(),
    {
        proof {
            use_type_invariant(self);
        }
        self.raw().len()
    }

    /// The bytes as they were given.
    pub fn raw(&self) -> (bytes: &'a [u8])
        ensures
            bytes@ == self.bytes(),
            bytes@.len() % 2 == 0,
    {
        proof {
            use_type_invariant(self);
        }
        self.0
    }

    /// The element at `index`, if there is one.
    pub fn get(&self, index: usize) -> (r: Option<u16>)
        ensures
            r == (if index < self@.len() {
                Some(self@[index as int])
            } else {
                None
            }),
    {
        let bytes = self.raw();
        if index >= bytes.len() / 2 {
            return None;
        }
        let at: usize = index * 2;
        Some(join_le(bytes[at], bytes[at + 1]))
    }

    /// An iterator over the elements, front to back.
    pub fn iter(&self) -> (it: iter::UnalignedU16SliceIterator<'a>)
        ensures
            it@ == self@,
    {
        iter::UnalignedU16SliceIterator::new(self)
    }
}

/// Wraps the bytes, or reports that their number is odd: the same as
/// [`UnalignedU16Slice::new`].
impl<'a> TryFrom<&'a [u8]> for UnalignedU16Slice<'a> {
    type Error = error::BadByteLength;

    fn try_from(value: &'a [u8]) -> (r: Result<Self, error::BadByteLength>) {
        Self::new(value)
    }
}

impl<'a> TryFromSpecImpl<&'a [u8]> for UnalignedU16Slice<'a> {
    open spec fn obeys_try_from_spec() -> bool {
        true
    }

    open spec fn try_from_spec(value: &'a [u8]) -> Result<Self, error::BadByteLength> {
        if value@.len() % 2 == 0 {
            Ok(Self::of(value))
        } else {
            Err(error::BadByteLength)
        }
    }
}

} // verus!
