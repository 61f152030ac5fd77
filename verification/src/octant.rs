//! One of the eight children of a cubic region of space.

use vstd::prelude::*;
use crate::error::Error;

verus! {

/// An enumerated value 0-7 identifying one of a cube's eight octants.
/// Values 8-15 are never octants; the value 15 has a special meaning only
/// inside the binary address codec, as the padding nibble.
#[derive(Debug, Clone, Copy, PartialEq, Eq, Structural, Hash)]
pub enum Octant {
    First,
    Second,
    Third,
    Fourth,
    Fifth,
    Sixth,
    Seventh,
    Eighth,
}

impl Octant {
    /// The index 0-7 of this octant.
    pub open spec fn spec_index(self) -> u8 {
        match self {
            Octant::First => 0,
            Octant::Second => 1,
            Octant::Third => 2,
            Octant::Fourth => 3,
            Octant::Fifth => 4,
            Octant::Sixth => 5,
            Octant::Seventh => 6,
            Octant::Eighth => 7,
        }
    }

    /// The octant with the given index; meaningful only for indices 0-7.
    pub open spec fn spec_from_index(i: u8) -> Octant {
        if i == 0 {
            Octant::First
        } else if i == 1 {
            Octant::Second
        } else if i == 2 {
            Octant::Third
        } else if i == 3 {
            Octant::Fourth
        } else if i == 4 {
            Octant::Fifth
        } else if i == 5 {
            Octant::Sixth
        } else if i == 6 {
            Octant::Seventh
        } else {
            Octant::Eighth
        }
    }

    /// The octant for an index in 0-7.  Every index in 8-255 is rejected
    /// with `InvalidOctantIndex`.
    pub fn try_from(input: u8) -> (r: Result<Octant, Error>)
        ensures
            input <= 7 ==> r == Ok::<Octant, Error>(Octant::spec_from_index(input)),
            input > 7 ==> r == Err::<Octant, Error>(Error::InvalidOctantIndex { index: input }),
    {
        match input {
            0 => Ok(Octant::First),
            1 => Ok(Octant::Second),
            2 => Ok(Octant::Third),
            3 => Ok(Octant::Fourth),
            4 => Ok(Octant::Fifth),
            5 => Ok(Octant::Sixth),
            6 => Ok(Octant::Seventh),
            7 => Ok(Octant::Eighth),
            _ => Err(Error::InvalidOctantIndex { index: input }),
        }
    }

    /// The index 0-7 of this octant, as an executable value.
    pub fn index(self) -> (r: u8)
        ensures
            r == self.spec_index(),
            r <= 7,
    {
        match self {
            Octant::First => 0,
            Octant::Second => 1,
            Octant::Third => 2,
            Octant::Fourth => 3,
            Octant::Fifth => 4,
            Octant::Sixth => 5,
            Octant::Seventh => 6,
            Octant::Eighth => 7,
        }
    }

    /// Indexing is the inverse of `spec_from_index` on 0-7.
    pub proof fn lemma_index_from_index(self)
        ensures
            Octant::spec_from_index(self.spec_index()) == self,
            self.spec_index() <= 7,
    {
    }
}

} // verus!
