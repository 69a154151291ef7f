//! Evaluation of arithmetic circuits over the quadratic extension field.
//!
//! A circuit has wires. The variables are the first wires; each instruction then combines the
//! values of two earlier wires into the value of the next one. Wires are numbered downwards: of
//! `n` wires, the first has the number `n - 1` and the last, which is the output, the number zero.

use crate::context::ContextId;
use crate::context::RowIndex;
use crate::errors::AceError;
use crate::felt::Felt;
use crate::layout::MAX_NUM_ACE_WIRES;
use crate::quad_felt::can_multiply;
use crate::quad_felt::can_sum;
use crate::quad_felt::quad_difference;
use crate::quad_felt::quad_felt;
use crate::quad_felt::quad_product;
use crate::quad_felt::quad_sum;
use crate::quad_felt::QuadFelt;
use crate::word::Word;
use vstd::prelude::*;

verus! {

/// One step of the evaluation.
#[derive(Clone, Copy, PartialEq, Eq, Structural, Debug)]
pub enum AceRow {
    /// Two variables, read from memory at the given address.
    Read { ptr: Felt, word: Word },
    /// An instruction, read from memory at the given address.
    Eval { ptr: Felt, instruction: Felt },
}

/// An evaluation of a circuit, in progress or complete.
#[derive(Debug)]
pub struct CircuitEvaluation {
    ctx: ContextId,
    clk: RowIndex,
    num_read_rows: u32,
    num_eval_rows: u32,
    rows: Vec<AceRow>,
    wires: Vec<QuadFelt>,
}

/// What an evaluation holds.
#[verifier::ext_equal]
pub struct CircuitModel {
    /// The context and the clock cycle of the evaluation.
    pub ctx: ContextId,
    pub clk: RowIndex,
    /// The number of rows that read variables, two each, and of rows that evaluate instructions.
    pub num_read_rows: u32,
    pub num_eval_rows: u32,
    /// The steps so far.
    pub rows: Seq<AceRow>,
    /// The values of the wires so far.
    pub wires: Seq<QuadFelt>,
}

/// What an instruction does with the values of its two wires.
pub enum AceOp {
    Sub,
    Mul,
    Add,
}

/// The numbers of the two wires of an instruction and its operation: thirty bits each for the
/// numbers, the lower ones for the left wire, and the operation above them.
pub open spec fn decoded(instruction: int) -> Option<(int, int, AceOp)> {
    let left = instruction % 0x4000_0000;
    let right = (instruction / 0x4000_0000) % 0x4000_0000;
    let op = instruction / 0x1000_0000_0000_0000;
    if op == 0 {
        Some((left, right, AceOp::Sub))
    } else if op == 1 {
        Some((left, right, AceOp::Mul))
    } else if op == 2 {
        Some((left, right, AceOp::Add))
    } else {
        None
    }
}

impl CircuitModel {
    /// An evaluation that has not begun.
    pub open spec fn fresh(
        ctx: ContextId,
        clk: RowIndex,
        num_read_rows: u32,
        num_eval_rows: u32,
    ) -> CircuitModel {
        CircuitModel {
            ctx,
            clk,
            num_read_rows,
            num_eval_rows,
            rows: Seq::empty(),
            wires: Seq::empty(),
        }
    }

    /// The number of wires of the circuit.
    pub open spec fn num_wires(&self) -> int {
        2 * self.num_read_rows + self.num_eval_rows
    }

    /// The evaluation once two more variables have been read.
    pub open spec fn read(&self, ptr: Felt, word: Word) -> CircuitModel {
        CircuitModel {
            rows: self.rows.push(AceRow::Read { ptr, word }),
            wires: self.wires.push(quad_felt(word.e0, word.e1)).push(
                quad_felt(word.e2, word.e3),
            ),
            ..*self
        }
    }

    /// The value of a wire, if it has one yet.
    pub open spec fn wire(&self, id: int) -> Option<QuadFelt> {
        let at = self.num_wires() - 1 - id;
        if 0 <= at < self.wires.len() {
            Some(self.wires[at])
        } else {
            None
        }
    }

    /// Whether the field can compute what an instruction asks for.
    pub open spec fn can_eval(&self, instruction: Felt) -> bool {
        match decoded(instruction@ as int) {
            None => true,
            Some((left, right, op)) => match (self.wire(left), self.wire(right)) {
                (Some(l), Some(r)) => match op {
                    AceOp::Sub => true,
                    AceOp::Mul => can_multiply(l, r),
                    AceOp::Add => can_sum(l, r),
                },
                _ => true,
            },
        }
    }

    /// The evaluation once one more instruction has been evaluated, or why it cannot be.
    pub open spec fn eval(&self, ptr: Felt, instruction: Felt) -> Result<CircuitModel, AceError> {
        match decoded(instruction@ as int) {
            None => Err(AceError::FailedDecodeInstruction),
            Some((left, right, op)) => match (self.wire(left), self.wire(right)) {
                (Some(l), Some(r)) => Ok(
                    CircuitModel {
                        rows: self.rows.push(AceRow::Eval { ptr, instruction }),
                        wires: self.wires.push(
                            match op {
                                AceOp::Sub => quad_difference(l, r),
                                AceOp::Mul => quad_product(l, r),
                                AceOp::Add => quad_sum(l, r),
                            },
                        ),
                        ..*self
                    },
                ),
                _ => Err(AceError::FailedMemoryRead),
            },
        }
    }

    /// The value of the last wire, once all wires have values.
    pub open spec fn output(&self) -> Option<QuadFelt> {
        if self.wires.len() > 0 && self.wires.len() == self.num_wires() {
            Some(self.wires.last())
        } else {
            None
        }
    }
}

impl View for CircuitEvaluation {
    type V = CircuitModel;

    closed spec fn view(&self) -> CircuitModel {
        CircuitModel {
            ctx: self.ctx,
            clk: self.clk,
            num_read_rows: self.num_read_rows,
            num_eval_rows: self.num_eval_rows,
            rows: self.rows@,
            wires: self.wires@,
        }
    }
}

impl CircuitEvaluation {
    /// An evaluation of a circuit with the given number of rows, in the given context and clock
    /// cycle.
    pub fn new(ctx: ContextId, clk: RowIndex, num_read_rows: u32, num_eval_rows: u32) -> (r:
        CircuitEvaluation)
        requires
            2 * num_read_rows + num_eval_rows <= MAX_NUM_ACE_WIRES,
        ensures
            r@ == CircuitModel::fresh(ctx, clk, num_read_rows, num_eval_rows),
    {
        CircuitEvaluation {
            ctx,
            clk,
            num_read_rows,
            num_eval_rows,
            rows: Vec::new(),
            wires: Vec::new(),
        }
    }

    /// Takes a word as the values of the next two variables.
    pub fn do_read(&mut self, ptr: Felt, word: Word)
        ensures
            final(self)@ == old(self)@.read(ptr, word),
    {
        self.rows.push(AceRow::Read { ptr, word });
        self.wires.push(QuadFelt::new(word.e0, word.e1));
        self.wires.push(QuadFelt::new(word.e2, word.e3));
    }

    fn wire(&self, id: u64) -> (r: Option<QuadFelt>)
        ensures
            r == self@.wire(id as int),
    {
        let num_wires: u64 = 2 * self.num_read_rows as u64 + self.num_eval_rows as u64;
        if id < num_wires {
            let at: u64 = num_wires - 1 - id;
            if at < self.wires.len() as u64 {
                return Some(self.wires[at as usize]);
            }
        }
        None
    }

    /// Evaluates an instruction and takes its result as the value of the next wire.
    pub fn do_eval(&mut self, ptr: Felt, instruction: Felt) -> (r: Result<(), AceError>)
        requires
            old(self)@.can_eval(instruction),
        ensures
            match old(self)@.eval(ptr, instruction) {
                Ok(m) => r is Ok && final(self)@ == m,
                Err(e) => r == Err::<(), AceError>(e) && final(self)@ == old(self)@,
            },
    {
        let encoded: u64 = instruction.as_int();
        let left: u64 = encoded % 0x4000_0000;
        let right: u64 = (encoded / 0x4000_0000) % 0x4000_0000;
        let op: u64 = encoded / 0x1000_0000_0000_0000;
        if op > 2 {
            return Err(AceError::FailedDecodeInstruction);
        }
        match (self.wire(left), self.wire(right)) {
            (Some(l), Some(r)) => {
                let value = if op == 0 {
                    l.sub(r)
                } else if op == 1 {
                    l.mul(r)
                } else {
                    l.add(r)
                };
                self.rows.push(AceRow::Eval { ptr, instruction });
                self.wires.push(value);
                Ok(())
            },
            _ => Err(AceError::FailedMemoryRead),
        }
    }

    /// The value of the last wire, once all wires have values.
    pub fn output_value(&self) -> (r: Option<QuadFelt>)
        ensures
            r == self@.output(),
    {
        let num_wires: u64 = 2 * self.num_read_rows as u64 + self.num_eval_rows as u64;
        let n = self.wires.len();
        if n > 0 && n as u64 == num_wires {
            Some(self.wires[n - 1])
        } else {
            None
        }
    }
}

} // verus!
