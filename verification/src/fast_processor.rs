//! The part of the state of the processor that a tracer reads.

use crate::context::ContextId;
use crate::context::RowIndex;
use crate::felt::Felt;
use crate::word::Word;
use vstd::prelude::*;

verus! {

/// The state of the processor in a clock cycle.
#[derive(Clone, Copy, Debug)]
pub struct FastProcessor {
    /// The clock cycle.
    pub clk: RowIndex,
    /// The execution context.
    pub ctx: ContextId,
    /// The free memory pointer.
    pub fmp: Felt,
    /// Whether the processor executes a syscall.
    pub in_syscall: bool,
    /// The digest of the procedure that began the execution context.
    pub caller_hash: Word,
    /// The topmost 16 elements of the stack, the top of the stack last.
    pub stack_top: [Felt; 16],
    /// The number of elements on the stack of the execution context.
    pub stack_depth: u32,
}

impl FastProcessor {
    /// The stack element at a distance from the top of the stack.
    pub open spec fn item(&self, idx: int) -> Felt {
        self.stack_top@[15 - idx]
    }

    /// The stack element at a distance from the top of the stack.
    pub fn stack_get(&self, idx: usize) -> (r: Felt)
        requires
            idx < 16,
        ensures
            r == self.item(idx as int),
    {
        self.stack_top[15 - idx]
    }

    /// The number of elements on the stack of the execution context.
    pub fn stack_depth(&self) -> (r: u32)
        ensures
            r == self.stack_depth,
    {
        self.stack_depth
    }
}

} // verus!
