//! Words: four field elements.

use crate::felt::felt;
use crate::felt::Felt;
use vstd::prelude::*;

verus! {

/// Number of field elements in a word.
pub const WORD_SIZE: usize = 4;

/// Four field elements, such as a digest.
#[derive(Clone, Copy, PartialEq, Eq, Structural, Debug)]
pub struct Word {
    pub e0: Felt,
    pub e1: Felt,
    pub e2: Felt,
    pub e3: Felt,
}

/// The word of four zeros.
pub open spec fn empty_word() -> Word {
    Word { e0: felt(0), e1: felt(0), e2: felt(0), e3: felt(0) }
}

impl View for Word {
    type V = Seq<Felt>;

    open spec fn view(&self) -> Seq<Felt> {
        seq![self.e0, self.e1, self.e2, self.e3]
    }
}

impl Word {
    /// The word of the given elements.
    pub fn new(elements: [Felt; 4]) -> (r: Word)
        ensures
            r@ == elements@,
    {
        Word { e0: elements[0], e1: elements[1], e2: elements[2], e3: elements[3] }
    }

    /// The word of four zeros.
    pub fn empty() -> (r: Word)
        ensures
            r == empty_word(),
    {
        Word { e0: Felt::zero(), e1: Felt::zero(), e2: Felt::zero(), e3: Felt::zero() }
    }

    /// The elements of the word, in order.
    pub fn elements(&self) -> (r: [Felt; 4])
        ensures
            r@ == self@,
    {
        [self.e0, self.e1, self.e2, self.e3]
    }
}

} // verus!
