//! Execution contexts and clock cycles.

use crate::felt::felt;
use crate::felt::Felt;
use vstd::prelude::*;

verus! {

/// A clock cycle, which is the index of a row of the trace.
pub type RowIndex = u32;

/// Identifies an execution context; the root context has the identifier zero.
#[derive(Clone, Copy, PartialEq, Eq, Structural, Debug)]
pub struct ContextId {
    pub id: u32,
}

impl ContextId {
    /// The root context.
    pub fn root() -> (r: ContextId)
        ensures
            r == (ContextId { id: 0 }),
    {
        ContextId { id: 0 }
    }

    /// The identifier as a field element.
    pub fn to_felt(&self) -> (r: Felt)
        ensures
            r == felt(self.id as int),
    {
        Felt::new(self.id as u64)
    }
}

} // verus!
