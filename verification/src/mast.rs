//! Programs: forests of nodes that are executed one after the other.
//!
//! The types hold what the generation of the trace reads of a program. A digest is carried along
//! as it is; nothing here computes one.

use crate::felt::felt;
use crate::felt::Felt;
use crate::layout::BATCH_SIZE;
use crate::layout::GROUP_SIZE;
use crate::layout::OPCODE_CALL;
use crate::layout::OPCODE_DYN;
use crate::layout::OPCODE_DYNCALL;
use crate::layout::OPCODE_JOIN;
use crate::layout::OPCODE_LOOP;
use crate::layout::OPCODE_SPLIT;
use crate::layout::OPCODE_SYSCALL;
use crate::pow2::law_next_pow2;
use crate::pow2::next_pow2;
use crate::pow2::next_power_of_two;
use crate::pow2::pow2_from;
use crate::word::Word;
use vstd::prelude::*;

verus! {

/// Position of a node in its forest.
#[derive(Clone, Copy, PartialEq, Eq, Structural, Debug)]
pub struct MastNodeId {
    pub index: u32,
}

/// One operation of a basic block.
#[derive(Clone, Copy, PartialEq, Eq, Structural, Debug)]
pub struct Operation {
    /// Which operation it is.
    pub op_code: u8,
    /// The value that the operation carries in a group of its own, if it does.
    pub imm_value: Option<Felt>,
    /// The code that the operation reports when it fails.
    pub err_code: Felt,
}

// OPERATION BATCHES

/// A batch of operations: up to eight groups, each of which holds either up to nine operations or
/// one immediate value.
#[derive(Debug)]
pub struct OpBatch {
    ops: Vec<Operation>,
    indptr: [usize; 9],
    groups: [Felt; 8],
    num_groups: usize,
}

/// What a batch holds.
#[verifier::ext_equal]
pub struct OpBatchModel {
    /// The operations of the batch, including padding.
    pub ops: Seq<Operation>,
    /// The position of the first operation of each group, and one past the last operation.
    pub indptr: Seq<usize>,
    /// The encoding of each group.
    pub groups: Seq<Felt>,
    /// The number of groups in use.
    pub num_groups: usize,
}

impl OpBatchModel {
    /// Whether the groups partition the operations.
    pub open spec fn well_formed(&self) -> bool {
        &&& 1 <= self.num_groups <= BATCH_SIZE
        &&& self.indptr.len() == BATCH_SIZE + 1
        &&& self.groups.len() == BATCH_SIZE
        &&& self.indptr[0] == 0
        &&& self.indptr[self.num_groups as int] == self.ops.len()
        &&& forall|g: int|
            #![trigger self.indptr[g]]
            0 <= g < self.num_groups ==> self.indptr[g] <= self.indptr[g + 1] <= self.indptr[g]
                + GROUP_SIZE
    }

    /// The first group at or after `g` that ends beyond operation `op_idx`.
    pub open spec fn group_from(&self, op_idx: int, g: int) -> int
        decreases self.num_groups - g,
    {
        if g < 0 || g >= self.num_groups || op_idx < self.indptr[g + 1] {
            g
        } else {
            self.group_from(op_idx, g + 1)
        }
    }

    /// The group that holds operation `op_idx`.
    pub open spec fn group_of(&self, op_idx: int) -> int {
        self.group_from(op_idx, 0)
    }

    /// The position of operation `op_idx` in its group.
    pub open spec fn idx_in_group(&self, op_idx: int) -> int {
        op_idx - self.indptr[self.group_of(op_idx)]
    }

    /// The first group at or after `g` that holds operations, if there is one.
    pub open spec fn op_group_from(&self, g: int) -> Option<int>
        decreases self.num_groups - g,
    {
        if g < 0 || g >= self.num_groups {
            None
        } else if self.indptr[g] != self.indptr[g + 1] {
            Some(g)
        } else {
            self.op_group_from(g + 1)
        }
    }
}

impl View for OpBatch {
    type V = OpBatchModel;

    closed spec fn view(&self) -> OpBatchModel {
        OpBatchModel {
            ops: self.ops@,
            indptr: self.indptr@,
            groups: self.groups@,
            num_groups: self.num_groups,
        }
    }
}

impl OpBatch {
    #[verifier::type_invariant]
    spec fn inv(self) -> bool {
        self@.well_formed()
    }

    /// A batch of the given operations, unless the groups do not partition them.
    pub fn new(
        ops: Vec<Operation>,
        indptr: [usize; 9],
        groups: [Felt; 8],
        num_groups: usize,
    ) -> (r: Option<OpBatch>)
        ensures
            ({
                let m = OpBatchModel { ops: ops@, indptr: indptr@, groups: groups@, num_groups };
                &&& r is Some <==> m.well_formed()
                &&& r matches Some(b) ==> b@ == m
            }),
    {
        if num_groups < 1 || num_groups > BATCH_SIZE || indptr[0] != 0 || indptr[num_groups]
            != ops.len() {
            return None;
        }
        let ghost m = OpBatchModel { ops: ops@, indptr: indptr@, groups: groups@, num_groups };
        let mut g: usize = 0;
        while g < num_groups
            invariant
                num_groups <= BATCH_SIZE,
                m.indptr == indptr@,
                m.num_groups == num_groups,
                g <= num_groups,
                forall|h: int|
                    #![trigger m.indptr[h]]
                    0 <= h < g ==> m.indptr[h] <= m.indptr[h + 1] <= m.indptr[h] + GROUP_SIZE,
            decreases num_groups - g,
        {
            if indptr[g + 1] < indptr[g] || indptr[g + 1] - indptr[g] > GROUP_SIZE {
                assert(!(m.indptr[g as int] <= m.indptr[g as int + 1] <= m.indptr[g as int]
                    + GROUP_SIZE));
                return None;
            }
            g = g + 1;
        }
        Some(OpBatch { ops, indptr, groups, num_groups })
    }

    /// A batch with the same contents.
    pub fn duplicate(&self) -> (r: OpBatch)
        ensures
            r@ == self@,
    {
        proof {
            use_type_invariant(self);
        }
        let mut ops: Vec<Operation> = Vec::new();
        for i in 0..self.ops.len()
            invariant
                ops@ == self.ops@.take(i as int),
        {
            ops.push(self.ops[i]);
            assert(self.ops@.take(i as int + 1) == self.ops@.take(i as int).push(
                self.ops@[i as int],
            ));
        }
        assert(self.ops@.take(self.ops@.len() as int) == self.ops@);
        OpBatch { ops, indptr: self.indptr, groups: self.groups, num_groups: self.num_groups }
    }

    /// The operations of the batch, including padding.
    pub fn ops(&self) -> (r: &Vec<Operation>)
        ensures
            r@ == self@.ops,
            self@.well_formed(),
    {
        proof {
            use_type_invariant(self);
        }
        &self.ops
    }

    /// The encoding of each group.
    pub fn groups(&self) -> (r: &[Felt; 8])
        ensures
            r@ == self@.groups,
            self@.well_formed(),
    {
        proof {
            use_type_invariant(self);
        }
        &self.groups
    }

    /// The number of groups in use.
    pub fn num_groups(&self) -> (r: usize)
        ensures
            r == self@.num_groups,
            self@.well_formed(),
    {
        proof {
            use_type_invariant(self);
        }
        self.num_groups
    }

    /// One past the last operation of a group.
    pub fn end_index(&self, group_idx: usize) -> (r: usize)
        requires
            group_idx < BATCH_SIZE,
        ensures
            r == self@.indptr[group_idx + 1],
    {
        self.indptr[group_idx + 1]
    }

    /// The group that holds an operation and the position of the operation in that group; `None`
    /// if the batch holds no such operation.
    pub fn op_idx_in_batch_to_group(&self, op_idx_in_batch: usize) -> (r: Option<(usize, usize)>)
        ensures
            r is None <==> op_idx_in_batch >= self@.ops.len(),
            r matches Some((g, i)) ==> {
                &&& g == self@.group_of(op_idx_in_batch as int)
                &&& g < self@.num_groups
                &&& self@.indptr[g as int] <= op_idx_in_batch < self@.indptr[g + 1]
                &&& i == self@.idx_in_group(op_idx_in_batch as int)
                &&& i < GROUP_SIZE
            },
            self@.well_formed(),
    {
        proof {
            use_type_invariant(self);
        }
        let ghost m = self@;
        if op_idx_in_batch >= self.ops.len() {
            return None;
        }
        let mut g: usize = 0;
        while self.indptr[g + 1] <= op_idx_in_batch
            invariant
                m == self@,
                m.well_formed(),
                op_idx_in_batch < m.ops.len(),
                g < m.num_groups,
                m.indptr[g as int] <= op_idx_in_batch,
                m.group_of(op_idx_in_batch as int) == m.group_from(
                    op_idx_in_batch as int,
                    g as int,
                ),
            decreases m.num_groups - g,
        {
            assert(g + 1 < m.num_groups);
            g = g + 1;
        }
        assert(m.indptr[g as int] <= m.indptr[g + 1]);
        Some((g, op_idx_in_batch - self.indptr[g]))
    }

    /// The first group after the given one that holds operations, if there is one.
    pub fn next_op_group_index(&self, after_this_group_index: usize) -> (r: Option<usize>)
        requires
            after_this_group_index < self@.num_groups,
        ensures
            match (r, self@.op_group_from(after_this_group_index + 1)) {
                (Some(g), Some(h)) => g == h && g < self@.num_groups,
                (None, None) => true,
                _ => false,
            },
    {
        proof {
            use_type_invariant(self);
        }
        let ghost m = self@;
        let mut g: usize = after_this_group_index + 1;
        while g < self.num_groups
            invariant
                m == self@,
                m.num_groups <= BATCH_SIZE,
                g <= m.num_groups,
                m.op_group_from(after_this_group_index + 1) == m.op_group_from(g as int),
            decreases m.num_groups - g,
        {
            if self.indptr[g] != self.indptr[g + 1] {
                return Some(g);
            }
            g = g + 1;
        }
        None
    }
}

/// What each of the batches holds.
pub open spec fn batch_models(batches: Seq<OpBatch>) -> Seq<OpBatchModel> {
    batches.map_values(|b: OpBatch| b@)
}

/// Batches with the same contents.
pub fn duplicate_batches(batches: &Vec<OpBatch>) -> (r: Vec<OpBatch>)
    ensures
        batch_models(r@) == batch_models(batches@),
{
    let mut r: Vec<OpBatch> = Vec::new();
    for i in 0..batches.len()
        invariant
            r@.len() == i,
            forall|j: int| 0 <= j < i ==> (#[trigger] r@[j])@ == batches@[j]@,
    {
        r.push(batches[i].duplicate());
    }
    r
}

// NODES

/// A sequence of operations without control flow, in batches.
#[derive(Debug)]
pub struct BasicBlockNode {
    op_batches: Vec<OpBatch>,
    digest: Word,
}

impl BasicBlockNode {
    /// The batches of the block.
    pub closed spec fn spec_op_batches(&self) -> Seq<OpBatch> {
        self.op_batches@
    }

    /// The digest of the block.
    pub closed spec fn spec_digest(&self) -> Word {
        self.digest
    }

    #[verifier::type_invariant]
    spec fn inv(self) -> bool {
        0 < self.op_batches@.len() <= u32::MAX
    }

    /// The number of groups in the block: eight for each batch but the last, whose groups are
    /// rounded up to a power of two.
    pub open spec fn spec_num_op_groups(&self) -> int {
        (self.spec_op_batches().len() - 1) * BATCH_SIZE + next_pow2(
            self.spec_op_batches().last()@.num_groups as int,
        )
    }

    /// A block of the given batches, unless there are none or more than 2^32 - 1.
    pub fn new(op_batches: Vec<OpBatch>, digest: Word) -> (r: Option<BasicBlockNode>)
        ensures
            r is Some <==> 0 < op_batches@.len() <= u32::MAX,
            r matches Some(b) ==> b.spec_op_batches() == op_batches@ && b.spec_digest() == digest,
    {
        if op_batches.len() == 0 || op_batches.len() > u32::MAX as usize {
            return None;
        }
        Some(BasicBlockNode { op_batches, digest })
    }

    /// The batches of the block; there is at least one.
    pub fn op_batches(&self) -> (r: &Vec<OpBatch>)
        ensures
            r@ == self.spec_op_batches(),
            0 < r@.len() <= u32::MAX,
    {
        proof {
            use_type_invariant(self);
        }
        &self.op_batches
    }

    /// The number of batches in the block.
    pub fn num_op_batches(&self) -> (r: u32)
        ensures
            r == self.spec_op_batches().len(),
            r > 0,
    {
        proof {
            use_type_invariant(self);
        }
        self.op_batches.len() as u32
    }

    /// The number of groups in the block.
    pub fn num_op_groups(&self) -> (r: u64)
        ensures
            r == self.spec_num_op_groups(),
            0 < r <= BATCH_SIZE * self.spec_op_batches().len(),
    {
        proof {
            use_type_invariant(self);
        }
        let n = self.op_batches.len();
        let last: usize = self.op_batches[n - 1].num_groups();
        assert(next_pow2(last as int) <= BATCH_SIZE) by {
            reveal_with_fuel(pow2_from, 5);
        }
        proof {
            law_next_pow2(last as int);
        }
        let rounded: usize = next_power_of_two(last);
        let full: u64 = n as u64 - 1;
        assert(full * 8 <= u32::MAX * 8);
        full * 8 + rounded as u64
    }

    /// The digest of the block.
    pub fn digest(&self) -> (r: Word)
        ensures
            r == self.spec_digest(),
    {
        self.digest
    }
}

/// Executes its first child, then its second.
#[derive(Clone, Copy, Debug)]
pub struct JoinNode {
    pub first: MastNodeId,
    pub second: MastNodeId,
    pub digest: Word,
}

/// Executes one of two children, chosen by the top of the stack.
#[derive(Clone, Copy, Debug)]
pub struct SplitNode {
    pub on_true: MastNodeId,
    pub on_false: MastNodeId,
    pub digest: Word,
}

/// Executes its body for as long as the top of the stack is one.
#[derive(Clone, Copy, Debug)]
pub struct LoopNode {
    pub body: MastNodeId,
    pub digest: Word,
}

/// Executes the callee in a new context, or in the root context for a syscall.
#[derive(Clone, Copy, Debug)]
pub struct CallNode {
    pub callee: MastNodeId,
    pub is_syscall: bool,
    pub digest: Word,
}

/// Executes the procedure whose digest lies in memory at the address on top of the stack.
#[derive(Clone, Copy, Debug)]
pub struct DynNode {
    pub is_dyncall: bool,
    pub digest: Word,
}

/// Stands for a node of another forest.
#[derive(Clone, Copy, Debug)]
pub struct ExternalNode {
    pub digest: Word,
}

/// A node of a program.
#[derive(Debug)]
pub enum MastNode {
    Block(BasicBlockNode),
    Join(JoinNode),
    Split(SplitNode),
    Loop(LoopNode),
    Call(CallNode),
    Dyn(DynNode),
    External(ExternalNode),
}

/// The domain in which the children of a call node are hashed.
pub open spec fn call_domain(is_syscall: bool) -> Felt {
    if is_syscall {
        felt(OPCODE_SYSCALL as int)
    } else {
        felt(OPCODE_CALL as int)
    }
}

/// The domain in which the children of a dynamic node are hashed.
pub open spec fn dyn_domain(is_dyncall: bool) -> Felt {
    if is_dyncall {
        felt(OPCODE_DYNCALL as int)
    } else {
        felt(OPCODE_DYN as int)
    }
}

impl JoinNode {
    /// The domain in which the children are hashed.
    pub fn domain(&self) -> (r: Felt)
        ensures
            r == felt(OPCODE_JOIN as int),
    {
        Felt::new(OPCODE_JOIN as u64)
    }
}

impl SplitNode {
    /// The domain in which the children are hashed.
    pub fn domain(&self) -> (r: Felt)
        ensures
            r == felt(OPCODE_SPLIT as int),
    {
        Felt::new(OPCODE_SPLIT as u64)
    }
}

impl LoopNode {
    /// The domain in which the body is hashed.
    pub fn domain(&self) -> (r: Felt)
        ensures
            r == felt(OPCODE_LOOP as int),
    {
        Felt::new(OPCODE_LOOP as u64)
    }
}

impl CallNode {
    /// The domain in which the callee is hashed.
    pub fn domain(&self) -> (r: Felt)
        ensures
            r == call_domain(self.is_syscall),
    {
        if self.is_syscall {
            Felt::new(OPCODE_SYSCALL as u64)
        } else {
            Felt::new(OPCODE_CALL as u64)
        }
    }
}

impl DynNode {
    /// The domain of the node.
    pub fn domain(&self) -> (r: Felt)
        ensures
            r == dyn_domain(self.is_dyncall),
    {
        if self.is_dyncall {
            Felt::new(OPCODE_DYNCALL as u64)
        } else {
            Felt::new(OPCODE_DYN as u64)
        }
    }
}

impl MastNode {
    /// The digest of the node.
    pub open spec fn spec_digest(&self) -> Word {
        match self {
            MastNode::Block(n) => n.spec_digest(),
            MastNode::Join(n) => n.digest,
            MastNode::Split(n) => n.digest,
            MastNode::Loop(n) => n.digest,
            MastNode::Call(n) => n.digest,
            MastNode::Dyn(n) => n.digest,
            MastNode::External(n) => n.digest,
        }
    }

    /// The digest of the node.
    pub fn digest(&self) -> (r: Word)
        ensures
            r == self.spec_digest(),
    {
        match self {
            MastNode::Block(n) => n.digest(),
            MastNode::Join(n) => n.digest,
            MastNode::Split(n) => n.digest,
            MastNode::Loop(n) => n.digest,
            MastNode::Call(n) => n.digest,
            MastNode::Dyn(n) => n.digest,
            MastNode::External(n) => n.digest,
        }
    }
}

// FORESTS

/// The nodes of one or more programs, some of which are roots of procedures.
#[derive(Debug)]
pub struct MastForest {
    nodes: Vec<MastNode>,
    roots: Vec<MastNodeId>,
}

impl MastForest {
    /// The nodes of the forest.
    pub closed spec fn spec_nodes(&self) -> Seq<MastNode> {
        self.nodes@
    }

    /// The roots of the procedures of the forest.
    pub closed spec fn spec_roots(&self) -> Seq<MastNodeId> {
        self.roots@
    }

    #[verifier::type_invariant]
    spec fn inv(self) -> bool {
        forall|i: int| 0 <= i < self.roots@.len() ==> #[trigger] self.roots@[i].index < self.nodes@.len()
    }

    /// Whether the forest has a node at this position.
    pub open spec fn has(&self, id: MastNodeId) -> bool {
        id.index < self.spec_nodes().len()
    }

    /// The node at a position that the forest has.
    pub open spec fn node(&self, id: MastNodeId) -> MastNode {
        self.spec_nodes()[id.index as int]
    }

    /// The first of the roots from position `i` on whose node has the digest, if there is one.
    pub open spec fn root_from(&self, digest: Word, i: int) -> Option<MastNodeId>
        decreases self.spec_roots().len() - i,
    {
        if i < 0 || i >= self.spec_roots().len() {
            None
        } else if self.node(self.spec_roots()[i]).spec_digest() == digest {
            Some(self.spec_roots()[i])
        } else {
            self.root_from(digest, i + 1)
        }
    }

    /// The first root whose node has the digest, if there is one.
    pub open spec fn spec_find_procedure_root(&self, digest: Word) -> Option<MastNodeId> {
        self.root_from(digest, 0)
    }

    /// A forest of the given nodes, unless a root is not among them.
    pub fn new(nodes: Vec<MastNode>, roots: Vec<MastNodeId>) -> (r: Option<MastForest>)
        ensures
            r is Some <==> forall|i: int|
                0 <= i < roots@.len() ==> #[trigger] roots@[i].index < nodes@.len(),
            r matches Some(f) ==> f.spec_nodes() == nodes@ && f.spec_roots() == roots@,
    {
        let mut i: usize = 0;
        while i < roots.len()
            invariant
                i <= roots@.len(),
                forall|j: int| 0 <= j < i ==> #[trigger] roots@[j].index < nodes@.len(),
            decreases roots@.len() - i,
        {
            if roots[i].index as usize >= nodes.len() {
                assert(roots@[i as int].index >= nodes@.len());
                return None;
            }
            i = i + 1;
        }
        Some(MastForest { nodes, roots })
    }

    /// The node at a position, if the forest has one there.
    pub fn get_node_by_id(&self, node_id: MastNodeId) -> (r: Option<&MastNode>)
        ensures
            r is Some <==> self.has(node_id),
            r matches Some(n) ==> *n == self.node(node_id),
    {
        if (node_id.index as usize) < self.nodes.len() {
            Some(&self.nodes[node_id.index as usize])
        } else {
            None
        }
    }

    /// The first root whose node has the given digest, if there is one.
    pub fn find_procedure_root(&self, digest: Word) -> (r: Option<MastNodeId>)
        ensures
            r == self.spec_find_procedure_root(digest),
            r matches Some(id) ==> self.has(id),
    {
        proof {
            use_type_invariant(self);
        }
        let mut i: usize = 0;
        while i < self.roots.len()
            invariant
                self.inv(),
                i <= self.roots@.len(),
                self.spec_find_procedure_root(digest) == self.root_from(digest, i as int),
            decreases self.roots@.len() - i,
        {
            let root_id = self.roots[i];
            assert(self.roots@[i as int].index < self.nodes@.len());
            if self.nodes[root_id.index as usize].digest() == digest {
                return Some(root_id);
            }
            i = i + 1;
        }
        None
    }
}

// MERKLE PATHS

/// The siblings on the way from a leaf of a Merkle tree to its root.
#[derive(Debug)]
pub struct MerklePath {
    pub nodes: Vec<Word>,
}

impl View for MerklePath {
    type V = Seq<Word>;

    open spec fn view(&self) -> Seq<Word> {
        self.nodes@
    }
}

/// The depth of a path: the number of siblings, of which the low eight bits count.
pub open spec fn path_depth(path: Seq<Word>) -> int {
    path.len() as int % 256
}

impl MerklePath {
    /// The depth at which the path starts.
    pub fn depth(&self) -> (r: u8)
        ensures
            r == path_depth(self@),
    {
        let n: u64 = self.nodes.len() as u64;
        assert(n as u8 == n % 256) by (bit_vector);
        n as u8
    }

    /// A path with the same siblings.
    pub fn duplicate(&self) -> (r: MerklePath)
        ensures
            r@ == self@,
    {
        let mut nodes: Vec<Word> = Vec::new();
        for i in 0..self.nodes.len()
            invariant
                nodes@ == self.nodes@.take(i as int),
        {
            nodes.push(self.nodes[i]);
            assert(self.nodes@.take(i as int + 1) == self.nodes@.take(i as int).push(
                self.nodes@[i as int],
            ));
        }
        assert(self.nodes@.take(self.nodes@.len() as int) == self.nodes@);
        MerklePath { nodes }
    }
}

} // verus!
