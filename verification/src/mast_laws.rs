//! What holds of programs: where operations stand in their batches, and which node is found.

use crate::mast::BasicBlockNode;
use crate::mast::MastForest;
use crate::mast::MastNode;
use crate::mast::MastNodeId;
use crate::mast::OpBatchModel;
use crate::pow2::law_next_pow2;
use crate::word::Word;
use vstd::arithmetic::power2::pow2;
use vstd::prelude::*;

verus! {

/// An operation stands in the group whose range it lies in, at its distance from the beginning of
/// that group, which is less than nine.
pub proof fn law_group_of_operation(batch: OpBatchModel, op_idx: int)
    requires
        batch.well_formed(),
        0 <= op_idx < batch.ops.len(),
    ensures
        0 <= batch.group_of(op_idx) < batch.num_groups,
        batch.indptr[batch.group_of(op_idx)] <= op_idx < batch.indptr[batch.group_of(op_idx) + 1],
        batch.indptr[batch.group_of(op_idx)] + batch.idx_in_group(op_idx) == op_idx,
        0 <= batch.idx_in_group(op_idx) < 9,
{
    lemma_group_from(batch, op_idx, 0);
}

proof fn lemma_group_from(batch: OpBatchModel, op_idx: int, g: int)
    requires
        batch.well_formed(),
        0 <= g < batch.num_groups,
        batch.indptr[g] <= op_idx < batch.ops.len(),
    ensures
        g <= batch.group_from(op_idx, g) < batch.num_groups,
        batch.indptr[batch.group_from(op_idx, g)] <= op_idx < batch.indptr[batch.group_from(
            op_idx,
            g,
        ) + 1],
    decreases batch.num_groups - g,
{
    if op_idx >= batch.indptr[g + 1] {
        if g + 1 == batch.num_groups {
            assert(batch.indptr[batch.num_groups as int] == batch.ops.len());
        } else {
            lemma_group_from(batch, op_idx, g + 1);
        }
    }
}

/// The next group with operations is the first one, from a group on, that is not empty; and there is
/// none only if all groups from there on are empty.
pub proof fn law_next_group_with_operations(batch: OpBatchModel, g: int)
    requires
        batch.well_formed(),
        0 <= g,
    ensures
        match batch.op_group_from(g) {
            Some(next) => {
                &&& g <= next < batch.num_groups
                &&& batch.indptr[next] < batch.indptr[next + 1]
                &&& forall|h: int|
                    g <= h < next ==> #[trigger] batch.indptr[h] == batch.indptr[h + 1]
            },
            None => forall|h: int|
                g <= h < batch.num_groups ==> #[trigger] batch.indptr[h] == batch.indptr[h + 1],
        },
    decreases batch.num_groups - g,
{
    if g < batch.num_groups {
        if batch.indptr[g] == batch.indptr[g + 1] {
            law_next_group_with_operations(batch, g + 1);
        }
    }
}

/// A block has eight groups for each batch but the last, and for the last the least power of two
/// that is not below the number of its groups.
pub proof fn law_number_of_groups(node: BasicBlockNode)
    requires
        node.spec_op_batches().len() > 0,
    ensures
        ({
            let batches = node.spec_op_batches();
            let last = node.spec_num_op_groups() - 8 * (batches.len() - 1);
            &&& last >= batches.last()@.num_groups
            &&& exists|k: nat| #[trigger] pow2(k) == last
            &&& forall|k: nat| #[trigger] pow2(k) >= batches.last()@.num_groups ==> last <= pow2(k)
        }),
{
    law_next_pow2(node.spec_op_batches().last()@.num_groups as int);
    let n = node.spec_op_batches().len() - 1;
    assert(n * 8 == 8 * n);
}

/// The procedure that is found has the digest, is one of the roots of the forest, and no root
/// before it has the digest; none is found only if no root has it.
pub proof fn law_procedure_found(forest: MastForest, digest: Word)
    ensures
        match forest.spec_find_procedure_root(digest) {
            Some(id) => exists|i: int|
                {
                    &&& 0 <= i < forest.spec_roots().len()
                    &&& #[trigger] forest.spec_roots()[i] == id
                    &&& forest.node(id).spec_digest() == digest
                    &&& forall|j: int|
                        0 <= j < i ==> forest.node(
                            #[trigger] forest.spec_roots()[j],
                        ).spec_digest() != digest
                },
            None => forall|j: int|
                0 <= j < forest.spec_roots().len() ==> forest.node(
                    #[trigger] forest.spec_roots()[j],
                ).spec_digest() != digest,
        },
{
    lemma_root_from(forest, digest, 0);
}

proof fn lemma_root_from(forest: MastForest, digest: Word, i: int)
    requires
        0 <= i,
        forall|j: int|
            0 <= j < i && j < forest.spec_roots().len() ==> forest.node(
                #[trigger] forest.spec_roots()[j],
            ).spec_digest() != digest,
    ensures
        match forest.root_from(digest, i) {
            Some(id) => exists|k: int|
                {
                    &&& 0 <= k < forest.spec_roots().len()
                    &&& #[trigger] forest.spec_roots()[k] == id
                    &&& forest.node(id).spec_digest() == digest
                    &&& forall|j: int|
                        0 <= j < k ==> forest.node(
                            #[trigger] forest.spec_roots()[j],
                        ).spec_digest() != digest
                },
            None => forall|j: int|
                0 <= j < forest.spec_roots().len() ==> forest.node(
                    #[trigger] forest.spec_roots()[j],
                ).spec_digest() != digest,
        },
    decreases forest.spec_roots().len() - i,
{
    if i < forest.spec_roots().len() {
        if forest.node(forest.spec_roots()[i]).spec_digest() != digest {
            lemma_root_from(forest, digest, i + 1);
        } else {
            assert(forest.spec_roots()[i] == forest.root_from(digest, i).unwrap());
        }
    }
}

/// The digest of a node is the one that its own kind of node has.
pub proof fn law_digest(node: MastNode)
    ensures
        match node {
            MastNode::Block(n) => node.spec_digest() == n.spec_digest(),
            MastNode::Join(n) => node.spec_digest() == n.digest,
            MastNode::Split(n) => node.spec_digest() == n.digest,
            MastNode::Loop(n) => node.spec_digest() == n.digest,
            MastNode::Call(n) => node.spec_digest() == n.digest,
            MastNode::Dyn(n) => node.spec_digest() == n.digest,
            MastNode::External(n) => node.spec_digest() == n.digest,
        },
{
}

/// A forest has the nodes whose numbers are below the number of its nodes.
pub proof fn law_nodes(forest: MastForest, id: MastNodeId)
    ensures
        forest.has(id) <==> id.index < forest.spec_nodes().len(),
        forest.has(id) ==> forest.node(id) == forest.spec_nodes()[id.index as int],
{
}

} // verus!
