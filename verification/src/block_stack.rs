//! The nodes whose execution has begun and not ended yet.

use crate::context::ContextId;
use crate::felt::felt;
use crate::felt::flag;
use crate::felt::Felt;
use crate::word::Word;
use vstd::prelude::*;

verus! {

/// How far the decoding of a basic block has come.
#[derive(Clone, Copy, PartialEq, Eq, Structural, Debug)]
pub struct BasicBlockContext {
    /// The encoding of the operations of the current group that are left.
    pub group_ops_left: Felt,
    /// The number of groups that are left after the current one.
    pub num_groups_left: Felt,
}

/// The context to return to when a context ends.
#[derive(Clone, Copy, PartialEq, Eq, Structural, Debug)]
pub struct ExecutionContextInfo {
    pub parent_ctx: ContextId,
    pub parent_fn_hash: Word,
    pub parent_fmp: Felt,
    pub parent_stack_depth: u32,
    pub parent_next_overflow_addr: Felt,
}

impl ExecutionContextInfo {
    /// The context with the given state.
    pub fn new(
        parent_ctx: ContextId,
        parent_fn_hash: Word,
        parent_fmp: Felt,
        parent_stack_depth: u32,
        parent_next_overflow_addr: Felt,
    ) -> (r: Self)
        ensures
            r == (ExecutionContextInfo {
                parent_ctx,
                parent_fn_hash,
                parent_fmp,
                parent_stack_depth,
                parent_next_overflow_addr,
            }),
    {
        Self { parent_ctx, parent_fn_hash, parent_fmp, parent_stack_depth, parent_next_overflow_addr }
    }
}

/// What a node on the block stack is.
#[derive(Clone, Copy, PartialEq, Eq, Structural, Debug)]
pub enum BlockType {
    /// A join; whether its first child has been executed.
    Join(bool),
    Split,
    /// A loop; whether its body is executed at least once.
    Loop(bool),
    Call,
    Dyn,
    Dyncall,
    SysCall,
    BasicBlock,
}

/// A node on the block stack.
#[derive(Clone, Copy, PartialEq, Eq, Structural, Debug)]
pub struct BlockInfo {
    /// The address of the node.
    pub addr: Felt,
    /// What the node is.
    pub block_type: BlockType,
    /// The address of the parent of the node, or zero if it has none.
    pub parent_addr: Felt,
    /// The context to return to when the node ends, for a node that began a context.
    pub ctx_info: Option<ExecutionContextInfo>,
    /// Whether the node is the body of a loop.
    pub loop_body: bool,
}

impl BlockInfo {
    /// Whether the node is a loop whose body is executed at least once.
    pub open spec fn entered_loop(&self) -> bool {
        self.block_type == BlockType::Loop(true)
    }

    /// Whether the node is a CALL or a DYNCALL.
    pub open spec fn call(&self) -> bool {
        self.block_type == BlockType::Call || self.block_type == BlockType::Dyncall
    }

    /// Whether the node is a SYSCALL.
    pub open spec fn syscall(&self) -> bool {
        self.block_type == BlockType::SysCall
    }

    /// One if the node is the body of a loop, zero otherwise.
    pub fn is_loop_body(&self) -> (r: Felt)
        ensures
            r == flag(self.loop_body),
    {
        Felt::from_bool(self.loop_body)
    }

    /// One if the node is a loop whose body is executed at least once, zero otherwise.
    pub fn is_entered_loop(&self) -> (r: Felt)
        ensures
            r == flag(self.entered_loop()),
    {
        Felt::from_bool(self.block_type == BlockType::Loop(true))
    }

    /// One if the node is a CALL or a DYNCALL, zero otherwise.
    pub fn is_call(&self) -> (r: Felt)
        ensures
            r == flag(self.call()),
    {
        Felt::from_bool(
            self.block_type == BlockType::Call || self.block_type == BlockType::Dyncall,
        )
    }

    /// One if the node is a SYSCALL, zero otherwise.
    pub fn is_syscall(&self) -> (r: Felt)
        ensures
            r == flag(self.syscall()),
    {
        Felt::from_bool(self.block_type == BlockType::SysCall)
    }
}

/// The nodes whose execution has begun and not ended yet, the current one last.
#[derive(Debug)]
pub struct BlockStack {
    blocks: Vec<BlockInfo>,
}

impl View for BlockStack {
    type V = Seq<BlockInfo>;

    closed spec fn view(&self) -> Seq<BlockInfo> {
        self.blocks@
    }
}

/// The address of the current node, or zero if there is none.
pub open spec fn top_addr(blocks: Seq<BlockInfo>) -> Felt {
    if blocks.len() > 0 {
        blocks.last().addr
    } else {
        felt(0)
    }
}

/// The address of the parent of the current node, or zero if there is none.
pub open spec fn top_parent_addr(blocks: Seq<BlockInfo>) -> Felt {
    if blocks.len() > 0 {
        blocks.last().parent_addr
    } else {
        felt(0)
    }
}

/// The stack once a node has begun.
pub open spec fn block_pushed(
    blocks: Seq<BlockInfo>,
    addr: Felt,
    block_type: BlockType,
    ctx_info: Option<ExecutionContextInfo>,
) -> Seq<BlockInfo> {
    blocks.push(
        BlockInfo {
            addr,
            block_type,
            parent_addr: top_addr(blocks),
            ctx_info,
            loop_body: blocks.len() > 0 && blocks.last().block_type is Loop,
        },
    )
}

/// The stack once the current node has ended: if its parent is a join, one child of the join has
/// been executed now.
pub open spec fn block_popped(blocks: Seq<BlockInfo>) -> Seq<BlockInfo> {
    let rest = blocks.drop_last();
    if rest.len() > 0 && rest.last().block_type is Join {
        rest.update(
            rest.len() - 1,
            BlockInfo { block_type: BlockType::Join(true), ..rest.last() },
        )
    } else {
        rest
    }
}

impl Default for BlockStack {
    fn default() -> (r: Self)
        ensures
            r@ == Seq::<BlockInfo>::empty(),
    {
        Self { blocks: Vec::new() }
    }
}

impl BlockStack {
    /// Whether no node has begun without having ended.
    pub fn is_empty(&self) -> (r: bool)
        ensures
            r == (self@.len() == 0),
    {
        self.blocks.len() == 0
    }

    /// Begins a node; returns the address of its parent.
    pub fn push(
        &mut self,
        addr: Felt,
        block_type: BlockType,
        ctx_info: Option<ExecutionContextInfo>,
    ) -> (r: Felt)
        ensures
            r == top_addr(old(self)@),
            final(self)@ == block_pushed(old(self)@, addr, block_type, ctx_info),
    {
        let n = self.blocks.len();
        let (parent_addr, loop_body) = if n > 0 {
            let parent = self.blocks[n - 1];
            let in_loop = match parent.block_type {
                BlockType::Loop(_) => true,
                _ => false,
            };
            (parent.addr, in_loop)
        } else {
            (Felt::zero(), false)
        };
        self.blocks.push(BlockInfo { addr, block_type, parent_addr, ctx_info, loop_body });
        parent_addr
    }

    /// Ends the current node and returns it.
    pub fn pop(&mut self) -> (r: BlockInfo)
        requires
            old(self)@.len() > 0,
        ensures
            r == old(self)@.last(),
            final(self)@ == block_popped(old(self)@),
    {
        let block = self.blocks.pop().unwrap();
        let n = self.blocks.len();
        if n > 0 {
            let parent = self.blocks[n - 1];
            if let BlockType::Join(_) = parent.block_type {
                self.blocks.set(n - 1, BlockInfo { block_type: BlockType::Join(true), ..parent });
            }
        }
        block
    }

    /// The current node.
    pub fn peek(&self) -> (r: &BlockInfo)
        requires
            self@.len() > 0,
        ensures
            *r == self@.last(),
    {
        &self.blocks[self.blocks.len() - 1]
    }

    /// Replaces the address of the current node.
    pub fn set_top_addr(&mut self, addr: Felt)
        requires
            old(self)@.len() > 0,
        ensures
            final(self)@ == old(self)@.update(
                old(self)@.len() - 1,
                BlockInfo { addr, ..old(self)@.last() },
            ),
    {
        let n = self.blocks.len();
        let top = self.blocks[n - 1];
        self.blocks.set(n - 1, BlockInfo { addr, ..top });
    }
}

} // verus!
