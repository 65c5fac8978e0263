//! The compare instruction: tells whether the target equals a register or a
//! constant.

use crate::program_cache::ProgramCache;
use crate::program_state::{EvalError, ProgramState};
use crate::register_value::{index_text, RegisterIndex, RegisterValue};
use crate::text::decimal_text;
use std::collections::HashSet;
use vstd::prelude::*;
use vstd::string::StringExecFns;

verus! {

/// What comparing `x` with `y` gives: one when they are equal, zero when not.
pub open spec fn compare_outcome(x: int, y: int) -> int {
    if x == y {
        1
    } else {
        0
    }
}

/// The text of a compare instruction whose second operand is written as
/// `source`.
pub open spec fn compare_text(target: RegisterIndex, source: Seq<char>) -> Seq<char> {
    "cmp "@ + index_text(target) + ","@ + source
}

/// Compares `x` with `y`.
pub fn perform_compare(x: &RegisterValue, y: &RegisterValue) -> (r: RegisterValue)
    ensures
        r@ == compare_outcome(x@, y@),
{
    if x.equals(y) {
        RegisterValue::from_i64(1)
    } else {
        RegisterValue::from_i64(0)
    }
}

/// Replaces the target register by one if it equals the source register, and
/// by zero if not.
pub struct NodeCompareRegister {
    pub target: RegisterIndex,
    pub source: RegisterIndex,
}

impl NodeCompareRegister {
    pub fn new(target: RegisterIndex, source: RegisterIndex) -> (r: Self)
        ensures
            r.target == target,
            r.source == source,
    {
        Self { target: target, source: source }
    }

    /// The instruction as program text.
    pub fn formatted_instruction(&self) -> (r: String)
        ensures
            r@ == compare_text(self.target, index_text(self.source)),
    {
        let mut text = String::from_str("cmp ");
        text.append(self.target.to_string().as_str());
        text.append(",");
        text.append(self.source.to_string().as_str());
        text
    }

    /// Runs the instruction on `state`. A comparison never fails.
    pub fn eval(&self, state: &mut ProgramState, _cache: &mut ProgramCache) -> (r: Result<
        (),
        EvalError,
    >)
        ensures
            r == Ok::<(), EvalError>(()),
            final(state)@.step_count == old(state)@.step_count,
            final(state)@.registers == old(state)@.registers.insert(
                self.target,
                compare_outcome(
                    old(state)@.registers[self.target],
                    old(state)@.registers[self.source],
                ),
            ),
            *final(_cache) == *old(_cache),
    {
        let lhs: RegisterValue = state.get_register_value(&self.target);
        let rhs: RegisterValue = state.get_register_value(&self.source);
        state.set_register_value(self.target, perform_compare(&lhs, &rhs));
        Ok(())
    }

    /// Appends the registers that the instruction names: target, then source.
    pub fn accumulate_register_indexes(&self, register_vec: &mut Vec<RegisterIndex>)
        ensures
            final(register_vec)@ == old(register_vec)@.push(self.target).push(self.source),
    {
        register_vec.push(self.target);
        register_vec.push(self.source);
    }

    /// Carries liveness forward: the target becomes live when the source is.
    pub fn live_register_indexes(&self, register_set: &mut HashSet<u8>)
        ensures
            final(register_set)@ == if old(register_set)@.contains(self.source.0) {
                old(register_set)@.insert(self.target.0)
            } else {
                old(register_set)@
            },
    {
        broadcast use vstd::std_specs::hash::group_hash_axioms;

        if register_set.contains(&self.source.0) {
            register_set.insert(self.target.0);
        }
    }
}

/// Replaces the target register by one if it equals a constant, and by zero
/// if not.
pub struct NodeCompareConstant {
    pub target: RegisterIndex,
    pub source: RegisterValue,
}

impl NodeCompareConstant {
    pub fn new(target: RegisterIndex, source: RegisterValue) -> (r: Self)
        ensures
            r.target == target,
            r.source == source,
    {
        Self { target: target, source: source }
    }

    /// The instruction as program text.
    pub fn formatted_instruction(&self) -> (r: String)
        ensures
            r@ == compare_text(self.target, decimal_text(self.source@)),
    {
        let mut text = String::from_str("cmp ");
        text.append(self.target.to_string().as_str());
        text.append(",");
        text.append(self.source.to_string().as_str());
        text
    }

    /// Runs the instruction on `state`. A comparison never fails.
    pub fn eval(&self, state: &mut ProgramState, _cache: &mut ProgramCache) -> (r: Result<
        (),
        EvalError,
    >)
        ensures
            r == Ok::<(), EvalError>(()),
            final(state)@.step_count == old(state)@.step_count,
            final(state)@.registers == old(state)@.registers.insert(
                self.target,
                compare_outcome(old(state)@.registers[self.target], self.source@),
            ),
            *final(_cache) == *old(_cache),
    {
        let lhs: RegisterValue = state.get_register_value(&self.target);
        state.set_register_value(self.target, perform_compare(&lhs, &self.source));
        Ok(())
    }

    /// Appends the register that the instruction names: the target.
    pub fn accumulate_register_indexes(&self, register_vec: &mut Vec<RegisterIndex>)
        ensures
            final(register_vec)@ == old(register_vec)@.push(self.target),
    {
        register_vec.push(self.target);
    }

    /// Carries liveness forward: a constant operand changes no register's
    /// liveness.
    pub fn live_register_indexes(&self, register_set: &mut HashSet<u8>)
        ensures
            final(register_set)@ == old(register_set)@,
    {
    }
}

} // verus!
