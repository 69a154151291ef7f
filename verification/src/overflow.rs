//! The overflow table: the stack elements below the topmost 16, of every context.

use crate::context::RowIndex;
use crate::felt::felt;
use crate::felt::Felt;
use vstd::prelude::*;

verus! {

/// The stack elements below the topmost 16, with the clock cycles in which they came there.
#[derive(Debug)]
pub struct OverflowTable {
    current: Vec<(Felt, RowIndex)>,
    saved: Vec<Vec<(Felt, RowIndex)>>,
    clk: RowIndex,
}

/// What the overflow table holds.
#[verifier::ext_equal]
pub struct OverflowModel {
    /// The elements of the current context, the topmost one last, with their clock cycles.
    pub current: Seq<(Felt, RowIndex)>,
    /// The elements of the contexts to return to, the next one last.
    pub saved: Seq<Seq<(Felt, RowIndex)>>,
    /// The clock cycle.
    pub clk: RowIndex,
}

impl OverflowModel {
    /// A table without elements, in the first clock cycle.
    pub open spec fn empty() -> OverflowModel {
        OverflowModel { current: Seq::empty(), saved: Seq::empty(), clk: 0 }
    }

    /// The clock cycle in which the topmost element of the current context came there, or zero.
    pub open spec fn last_update(&self) -> Felt {
        if self.current.len() > 0 {
            felt(self.current.last().1 as int)
        } else {
            felt(0)
        }
    }

    /// The table with one more element.
    pub open spec fn pushed(&self, value: Felt) -> OverflowModel {
        OverflowModel { current: self.current.push((value, self.clk)), ..*self }
    }

    /// The table without the topmost element of the current context, if there is one.
    pub open spec fn popped(&self) -> OverflowModel {
        if self.current.len() > 0 {
            OverflowModel { current: self.current.drop_last(), ..*self }
        } else {
            *self
        }
    }

    /// The table in a new context.
    pub open spec fn context_started(&self) -> OverflowModel {
        OverflowModel { current: Seq::empty(), saved: self.saved.push(self.current), ..*self }
    }

    /// The table in the context to return to.
    pub open spec fn context_restored(&self) -> OverflowModel {
        OverflowModel { current: self.saved.last(), saved: self.saved.drop_last(), ..*self }
    }
}

impl View for OverflowTable {
    type V = OverflowModel;

    closed spec fn view(&self) -> OverflowModel {
        OverflowModel {
            current: self.current@,
            saved: self.saved@.map_values(|c: Vec<(Felt, RowIndex)>| c@),
            clk: self.clk,
        }
    }
}

impl Default for OverflowTable {
    fn default() -> (r: Self)
        ensures
            r@ == OverflowModel::empty(),
    {
        OverflowTable { current: Vec::new(), saved: Vec::new(), clk: 0 }
    }
}

impl OverflowTable {
    /// Puts an element into the table.
    pub fn push(&mut self, value: Felt)
        ensures
            final(self)@ == old(self)@.pushed(value),
    {
        self.current.push((value, self.clk));
    }

    /// Takes the topmost element of the current context out of the table, if there is one.
    pub fn pop(&mut self) -> (r: Option<Felt>)
        ensures
            final(self)@ == old(self)@.popped(),
            r == (if old(self)@.current.len() > 0 {
                Some(old(self)@.current.last().0)
            } else {
                None
            }),
    {
        match self.current.pop() {
            Some((value, _)) => Some(value),
            None => None,
        }
    }

    /// The number of elements of the current context.
    pub fn num_elements_in_current_ctx(&self) -> (r: usize)
        ensures
            r == self@.current.len(),
    {
        self.current.len()
    }

    /// The clock cycle in which the topmost element of the current context came there, or zero.
    pub fn last_update_clk_in_current_ctx(&self) -> (r: Felt)
        ensures
            r == self@.last_update(),
    {
        let n = self.current.len();
        if n > 0 {
            Felt::new(self.current[n - 1].1 as u64)
        } else {
            Felt::zero()
        }
    }

    /// Advances the clock.
    pub fn advance_clock(&mut self)
        requires
            old(self)@.clk < u32::MAX,
        ensures
            final(self)@ == (OverflowModel { clk: (old(self)@.clk + 1) as u32, ..old(self)@ }),
    {
        self.clk = self.clk + 1;
    }

    /// Starts a new context.
    pub fn start_context(&mut self)
        ensures
            final(self)@ == old(self)@.context_started(),
    {
        let mut left: Vec<(Felt, RowIndex)> = Vec::new();
        std::mem::swap(&mut left, &mut self.current);
        self.saved.push(left);
    }

    /// Returns to the context before the current one.
    pub fn restore_context(&mut self)
        requires
            old(self)@.saved.len() > 0,
        ensures
            final(self)@ == old(self)@.context_restored(),
    {
        let previous = self.saved.pop().unwrap();
        self.current = previous;
        assert(self@.saved =~= old(self)@.saved.drop_last());
    }
}

} // verus!
