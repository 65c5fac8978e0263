//! The add, subtract and multiply instructions, with a register or a constant
//! as second operand.

use crate::program_cache::ProgramCache;
use crate::program_state::{EvalError, ProgramState};
use crate::register_value::{index_text, magnitude_in_range, RegisterIndex, RegisterValue};
use crate::text::decimal_text;
use std::collections::HashSet;
use vstd::prelude::*;
use vstd::string::StringExecFns;

verus! {

/// Which of the three operations an arithmetic instruction performs.
#[derive(Clone, Copy, Debug, PartialEq, Eq, Structural)]
pub enum ArithmeticOperation {
    Add,
    Subtract,
    Multiply,
}

/// The fault that an operation reports for an operand outside the range.
pub open spec fn arithmetic_fault(operation: ArithmeticOperation) -> EvalError {
    match operation {
        ArithmeticOperation::Add => EvalError::AddOutOfRange,
        ArithmeticOperation::Subtract => EvalError::SubtractOutOfRange,
        ArithmeticOperation::Multiply => EvalError::MultiplyOutOfRange,
    }
}

/// What the operation gives on `x` and `y`: an operand outside the range is
/// refused, otherwise the exact sum, difference or product.
pub open spec fn arithmetic_outcome(operation: ArithmeticOperation, x: int, y: int) -> Result<
    int,
    EvalError,
> {
    if !magnitude_in_range(x) || !magnitude_in_range(y) {
        Err(arithmetic_fault(operation))
    } else {
        Ok(
            match operation {
                ArithmeticOperation::Add => x + y,
                ArithmeticOperation::Subtract => x - y,
                ArithmeticOperation::Multiply => x * y,
            },
        )
    }
}

/// The mnemonic of an operation.
pub open spec fn arithmetic_mnemonic(operation: ArithmeticOperation) -> Seq<char> {
    match operation {
        ArithmeticOperation::Add => "add "@,
        ArithmeticOperation::Subtract => "sub "@,
        ArithmeticOperation::Multiply => "mul "@,
    }
}

/// The text of an arithmetic instruction whose second operand is written as
/// `source`.
pub open spec fn arithmetic_text(
    operation: ArithmeticOperation,
    target: RegisterIndex,
    source: Seq<char>,
) -> Seq<char> {
    arithmetic_mnemonic(operation) + index_text(target) + ","@ + source
}

/// What an arithmetic instruction does to the registers: the target receives
/// the result on its own value and `operand`; a refused operation changes
/// nothing.
pub open spec fn arithmetic_effect(
    operation: ArithmeticOperation,
    registers: Map<RegisterIndex, int>,
    target: RegisterIndex,
    operand: int,
) -> (Map<RegisterIndex, int>, Result<(), EvalError>) {
    match arithmetic_outcome(operation, registers[target], operand) {
        Ok(value) => (registers.insert(target, value), Ok(())),
        Err(e) => (registers, Err(e)),
    }
}

/// Performs the operation on `x` and `y`.
pub fn perform_arithmetic(operation: ArithmeticOperation, x: &RegisterValue, y: &RegisterValue) -> (r:
    Result<RegisterValue, EvalError>)
    ensures
        match r {
            Ok(value) => arithmetic_outcome(operation, x@, y@) == Ok::<int, EvalError>(value@),
            Err(e) => arithmetic_outcome(operation, x@, y@) == Err::<int, EvalError>(e),
        },
{
    if !x.is_in_range() || !y.is_in_range() {
        return Err(
            match operation {
                ArithmeticOperation::Add => EvalError::AddOutOfRange,
                ArithmeticOperation::Subtract => EvalError::SubtractOutOfRange,
                ArithmeticOperation::Multiply => EvalError::MultiplyOutOfRange,
            },
        );
    }
    Ok(
        match operation {
            ArithmeticOperation::Add => x.plus(y),
            ArithmeticOperation::Subtract => x.minus(y),
            ArithmeticOperation::Multiply => x.times(y),
        },
    )
}

/// The mnemonic of an operation, with the blank behind it.
fn mnemonic(operation: ArithmeticOperation) -> (r: &'static str)
    ensures
        r@ == arithmetic_mnemonic(operation),
{
    match operation {
        ArithmeticOperation::Add => "add ",
        ArithmeticOperation::Subtract => "sub ",
        ArithmeticOperation::Multiply => "mul ",
    }
}

/// Adds the source register to the target register, subtracts it from it or
/// multiplies the target by it.
pub struct NodeArithmeticRegister {
    pub operation: ArithmeticOperation,
    pub target: RegisterIndex,
    pub source: RegisterIndex,
}

impl NodeArithmeticRegister {
    pub fn new(operation: ArithmeticOperation, target: RegisterIndex, source: RegisterIndex) -> (r:
        Self)
        ensures
            r.operation == operation,
            r.target == target,
            r.source == source,
    {
        Self { operation: operation, target: target, source: source }
    }

    /// The instruction as program text.
    pub fn formatted_instruction(&self) -> (r: String)
        ensures
            r@ == arithmetic_text(self.operation, self.target, index_text(self.source)),
    {
        let mut text = String::from_str(mnemonic(self.operation));
        text.append(self.target.to_string().as_str());
        text.append(",");
        text.append(self.source.to_string().as_str());
        text
    }

    /// Runs the instruction on `state`.
    pub fn eval(&self, state: &mut ProgramState, _cache: &mut ProgramCache) -> (r: Result<
        (),
        EvalError,
    >)
        ensures
            final(state)@.step_count == old(state)@.step_count,
            (final(state)@.registers, r) == arithmetic_effect(
                self.operation,
                old(state)@.registers,
                self.target,
                old(state)@.registers[self.source],
            ),
            *final(_cache) == *old(_cache),
    {
        let lhs: RegisterValue = state.get_register_value(&self.target);
        let rhs: RegisterValue = state.get_register_value(&self.source);
        match perform_arithmetic(self.operation, &lhs, &rhs) {
            Ok(value) => {
                state.set_register_value(self.target, value);
                Ok(())
            },
            Err(err) => Err(err),
        }
    }

    /// Appends the registers that the instruction names: target, then source.
    pub fn accumulate_register_indexes(&self, register_vec: &mut Vec<RegisterIndex>)
        ensures
            final(register_vec)@ == old(register_vec)@.push(self.target).push(self.source),
    {
        register_vec.push(self.target);
        register_vec.push(self.source);
    }

    /// Carries liveness forward: the target becomes live when the source is.
    pub fn live_register_indexes(&self, register_set: &mut HashSet<u8>)
        ensures
            final(register_set)@ == if old(register_set)@.contains(self.source.0) {
                old(register_set)@.insert(self.target.0)
            } else {
                old(register_set)@
            },
    {
        broadcast use vstd::std_specs::hash::group_hash_axioms;

        if register_set.contains(&self.source.0) {
            register_set.insert(self.target.0);
        }
    }
}

/// Adds a constant to the target register, subtracts it from it or multiplies
/// the target by it.
pub struct NodeArithmeticConstant {
    pub operation: ArithmeticOperation,
    pub target: RegisterIndex,
    pub source: RegisterValue,
}

impl NodeArithmeticConstant {
    pub fn new(operation: ArithmeticOperation, target: RegisterIndex, source: RegisterValue) -> (r:
        Self)
        ensures
            r.operation == operation,
            r.target == target,
            r.source == source,
    {
        Self { operation: operation, target: target, source: source }
    }

    /// The instruction as program text.
    pub fn formatted_instruction(&self) -> (r: String)
        ensures
            r@ == arithmetic_text(self.operation, self.target, decimal_text(self.source@)),
    {
        let mut text = String::from_str(mnemonic(self.operation));
        text.append(self.target.to_string().as_str());
        text.append(",");
        text.append(self.source.to_string().as_str());
        text
    }

    /// Runs the instruction on `state`.
    pub fn eval(&self, state: &mut ProgramState, _cache: &mut ProgramCache) -> (r: Result<
        (),
        EvalError,
    >)
        ensures
            final(state)@.step_count == old(state)@.step_count,
            (final(state)@.registers, r) == arithmetic_effect(
                self.operation,
                old(state)@.registers,
                self.target,
                self.source@,
            ),
            *final(_cache) == *old(_cache),
    {
        let lhs: RegisterValue = state.get_register_value(&self.target);
        match perform_arithmetic(self.operation, &lhs, &self.source) {
            Ok(value) => {
                state.set_register_value(self.target, value);
                Ok(())
            },
            Err(err) => Err(err),
        }
    }

    /// Appends the register that the instruction names: the target.
    pub fn accumulate_register_indexes(&self, register_vec: &mut Vec<RegisterIndex>)
        ensures
            final(register_vec)@ == old(register_vec)@.push(self.target),
    {
        register_vec.push(self.target);
    }

    /// Carries liveness forward: a constant operand changes no register's
    /// liveness.
    pub fn live_register_indexes(&self, register_set: &mut HashSet<u8>)
        ensures
            final(register_set)@ == old(register_set)@,
    {
    }
}

} // verus!
