//! Splits bytes into 4-bit symbols.

use vstd::prelude::*;

verus! {

/// The 4-bit symbols of `bytes`: the high half of each byte, then its low
/// half, in the order of the bytes.
pub open spec fn nibbles(bytes: Seq<u8>) -> Seq<u8> {
    Seq::new(
        2 * bytes.len(),
        |i: int|
            if i % 2 == 0 {
                bytes[i / 2] / 16
            } else {
                bytes[i / 2] % 16
            },
    )
}

/// Every symbol fits in four bits, and there are two of them per byte.
pub proof fn lemma_nibbles_shape(bytes: Seq<u8>)
    ensures
        nibbles(bytes).len() == 2 * bytes.len(),
        forall|i: int| 0 <= i < nibbles(bytes).len() ==> #[trigger] nibbles(bytes)[i] < 16,
{
}

/// A cursor over the symbols of a borrowed byte slice.
///
/// The view is what is still to come; a fresh cursor on the same bytes starts
/// over.
pub struct Nibbler<'a> {
    source: &'a [u8],
    /// The byte that the next symbol is taken from.
    index: usize,
    /// Whether the high half of that byte is already out.
    low: bool,
}

impl<'a> View for Nibbler<'a> {
    type V = Seq<u8>;

    closed spec fn view(&self) -> Seq<u8> {
        nibbles(self.source@).skip(
            2 * self.index + if self.low {
                1int
            } else {
                0int
            },
        )
    }
}

impl<'a> Nibbler<'a> {
    #[verifier::type_invariant]
    spec fn inv(self) -> bool {
        &&& self.index <= self.source@.len()
        &&& self.low ==> self.index < self.source@.len()
    }

    /// A cursor in front of the first symbol of `source`.
    pub fn new(source: &'a [u8]) -> (cursor: Self)
        ensures
            cursor@ == nibbles(source@),
            cursor@.len() == 2 * source@.len(),
    {
        let cursor = Nibbler { source, index: 0, low: false };
        assert(cursor@ =~= nibbles(source@));
        proof {
            lemma_nibbles_shape(source@);
        }
        cursor
    }

    /// Hands out the next symbol and moves past it, or `None` at the end.
    pub fn next(&mut self) -> (nibble: Option<u8>)
        ensures
            old(self)@.len() == 0 ==> nibble is None && final(self)@ == old(self)@,
            old(self)@.len() > 0 ==> nibble == Some(old(self)@.first()) && final(self)@ == old(
                self,
            )@.drop_first(),
            nibble matches Some(n) ==> n < 16,
    {
        proof {
            use_type_invariant(&*self);
        }
        if self.index >= self.source.len() {
            return None;
        }
        let byte = self.source[self.index];
        let ghost before = self@;
        let nibble = if self.low {
            *self = Nibbler { source: self.source, index: self.index + 1, low: false };
            assert(byte & 0x0f == byte % 16) by (bit_vector);
            byte & 0x0f
        } else {
            *self = Nibbler { source: self.source, index: self.index, low: true };
            assert(byte >> 4 == byte / 16) by (bit_vector);
            byte >> 4
        };
        assert(self@ =~= before.drop_first());
        Some(nibble)
    }
}

} // verus!
