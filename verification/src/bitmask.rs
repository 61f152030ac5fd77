//! An 8-bit set over octant indices.

use vstd::prelude::*;

verus! {

/// An 8-bit value in which bit `i` speaks of octant `i`.  The same type
/// serves two purposes, fixed at the call site: "which octants exist"
/// and "which existing octants are internal branches".  No constraint is
/// placed on the bits here; the node invariant relates the two uses.
#[derive(Debug, Clone, Copy, PartialEq, Eq, Structural)]
pub struct Bitmask {
    mask: u8,
}

impl Bitmask {
    /// The raw byte of the mask.
    pub closed spec fn spec_value(self) -> u8 {
        self.mask
    }

    /// Whether bit `i` of the mask is set.
    pub open spec fn spec_bit(self, i: u8) -> bool {
        self.spec_value() >> i & 1 == 1
    }

    /// Wraps a raw byte as a bitmask, losslessly.
    pub fn new(mask: u8) -> (r: Bitmask)
        ensures
            r.spec_value() == mask,
    {
        Bitmask { mask }
    }

    /// The raw byte of the mask, losslessly.
    pub fn value(self) -> (r: u8)
        ensures
            r == self.spec_value(),
    {
        self.mask
    }

    /// Tests bit `i` of the mask.
    pub fn bit(self, i: u8) -> (r: bool)
        requires
            i < 8,
        ensures
            r == self.spec_bit(i),
    {
        self.mask >> i & 1 == 1
    }

    /// The mask with bit `i` also set.
    pub closed spec fn spec_with_bit(self, i: u8) -> Bitmask {
        Bitmask { mask: self.mask | (1u8 << i) }
    }

    /// Setting a bit leaves every other bit as it was.
    pub proof fn lemma_with_bit(self, i: u8)
        requires
            i < 8,
        ensures
            self.spec_with_bit(i).spec_value() == self.spec_value() | (1u8 << i),
            forall|j: u8|
                j < 8 ==> (#[trigger] self.spec_with_bit(i).spec_bit(j) <==> (j == i
                    || self.spec_bit(j))),
    {
        let m = self.mask;
        assert forall|j: u8| j < 8 implies (#[trigger] self.spec_with_bit(i).spec_bit(j) <==> (
        j == i || self.spec_bit(j))) by {
            assert(((m | (1u8 << i)) >> j & 1 == 1) <==> (j == i || (m >> j & 1 == 1)))
                by (bit_vector)
                requires
                    i < 8,
                    j < 8,
            ;
        }
    }

    /// Sets bit `i` of the mask.
    pub fn with_bit(self, i: u8) -> (r: Bitmask)
        requires
            i < 8,
        ensures
            r == self.spec_with_bit(i),
    {
        Bitmask { mask: self.mask | (1u8 << i) }
    }
}

} // verus!
