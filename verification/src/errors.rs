//! Ways in which executing an operation can fail.

use crate::felt::Felt;
use vstd::prelude::*;

verus! {

/// Failures of the evaluation of an arithmetic circuit.
#[derive(Clone, Copy, PartialEq, Eq, Structural, Debug)]
pub enum AceError {
    /// The circuit has more wires than the evaluator supports.
    TooManyWires(u64),
    /// The number of variables is odd or zero.
    NumVarIsNotWordAlignedOrIsEmpty(u64),
    /// The number of instructions is no multiple of four, or zero.
    NumEvalIsNotWordAlignedOrIsEmpty(u64),
    /// The instruction does not encode an operation on wires.
    FailedDecodeInstruction,
    /// An operand names a wire that has no value yet.
    FailedMemoryRead,
    /// The last wire of the circuit does not hold zero.
    CircuitNotEvaluateZero,
}

/// Failures of the execution of an operation.
#[derive(Debug)]
pub enum ExecutionError {
    /// Operands of a 32-bit operation that are no 32-bit values, the one nearest the top first.
    NotU32Values { values: Vec<Felt>, err_code: Felt },
    /// A division by zero, in the given clock cycle.
    DivideByZero { clk: u32 },
    /// The evaluation of an arithmetic circuit failed.
    FailedArithmeticEvaluation(AceError),
    /// A Merkle path does not lead to the claimed root.
    MerklePathVerificationFailed { err_code: Felt },
    /// The operation is not one that the executor knows.
    UnknownOperation { op_code: u8 },
    /// The recording holds no entry for an access that the operation makes.
    ReplayExhausted,
}

/// Failures of the advice provider.
#[derive(Debug)]
pub enum AdviceError {
    /// The advice stack is empty.
    StackReadFailed,
}

/// Failures of the memory.
#[derive(Debug)]
pub enum MemoryError {
    /// The address is not a 32-bit value.
    AddressOutOfBounds { addr: Felt },
}

} // verus!
