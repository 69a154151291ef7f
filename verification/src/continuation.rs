//! What remains to be executed once the current node is done.

use crate::mast::MastForest;
use crate::mast::MastNodeId;
use std::sync::Arc;
use vstd::prelude::*;

verus! {

/// A step that remains to be executed.
#[derive(Debug)]
pub enum Continuation {
    /// Execute a node from its start.
    StartNode(MastNodeId),
    /// End a join node, both children of which have been executed.
    FinishJoin(MastNodeId),
    /// End a split node, one child of which has been executed.
    FinishSplit(MastNodeId),
    /// Repeat or end a loop node whose body has been executed.
    FinishLoop(MastNodeId),
    /// End a call node whose callee has been executed.
    FinishCall(MastNodeId),
    /// End a dynamic node whose callee has been executed.
    FinishDyn(MastNodeId),
    /// Continue in the given forest.
    EnterForest(Arc<MastForest>),
}

impl Continuation {
    /// The same continuation.
    pub fn duplicate(&self) -> (r: Continuation)
        ensures
            r == *self,
    {
        match self {
            Continuation::StartNode(id) => Continuation::StartNode(*id),
            Continuation::FinishJoin(id) => Continuation::FinishJoin(*id),
            Continuation::FinishSplit(id) => Continuation::FinishSplit(*id),
            Continuation::FinishLoop(id) => Continuation::FinishLoop(*id),
            Continuation::FinishCall(id) => Continuation::FinishCall(*id),
            Continuation::FinishDyn(id) => Continuation::FinishDyn(*id),
            Continuation::EnterForest(forest) => Continuation::EnterForest(forest.clone()),
        }
    }
}

/// The steps that remain, the next one last.
#[derive(Debug)]
pub struct ContinuationStack {
    stack: Vec<Continuation>,
}

impl View for ContinuationStack {
    type V = Seq<Continuation>;

    closed spec fn view(&self) -> Seq<Continuation> {
        self.stack@
    }
}

impl ContinuationStack {
    /// A stack on which nothing remains.
    pub fn new() -> (r: ContinuationStack)
        ensures
            r@ == Seq::<Continuation>::empty(),
    {
        ContinuationStack { stack: Vec::new() }
    }

    /// Puts a step before all others.
    pub fn push_continuation(&mut self, continuation: Continuation)
        ensures
            final(self)@ == old(self)@.push(continuation),
    {
        self.stack.push(continuation);
    }

    /// Takes the next step, if there is one.
    pub fn pop_continuation(&mut self) -> (r: Option<Continuation>)
        ensures
            old(self)@.len() == 0 ==> r is None && final(self)@ == old(self)@,
            old(self)@.len() > 0 ==> {
                &&& r == Some(old(self)@.last())
                &&& final(self)@ == old(self)@.drop_last()
            },
    {
        self.stack.pop()
    }

    /// A stack with the same steps.
    pub fn duplicate(&self) -> (r: ContinuationStack)
        ensures
            r@ == self@,
    {
        let mut stack: Vec<Continuation> = Vec::new();
        for i in 0..self.stack.len()
            invariant
                stack@ == self.stack@.take(i as int),
        {
            stack.push(self.stack[i].duplicate());
            assert(self.stack@.take(i as int + 1) == self.stack@.take(i as int).push(
                self.stack@[i as int],
            ));
        }
        assert(self.stack@.take(self.stack@.len() as int) == self.stack@);
        ContinuationStack { stack }
    }
}

} // verus!
