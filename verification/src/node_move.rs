//! The move instruction, with a register or a constant as source.

use crate::program_cache::ProgramCache;
use crate::program_state::{EvalError, ProgramState};
use crate::register_value::{index_text, RegisterIndex, RegisterValue};
use crate::text::decimal_text;
use std::collections::HashSet;
use vstd::prelude::*;
use vstd::string::StringExecFns;

verus! {

/// The text of a move instruction whose source is written as `source`.
pub open spec fn move_text(target: RegisterIndex, source: Seq<char>) -> Seq<char> {
    "mov "@ + index_text(target) + ","@ + source
}

/// Copies the source register into the target register.
pub struct NodeMoveRegister {
    pub target: RegisterIndex,
    pub source: RegisterIndex,
}

impl NodeMoveRegister {
    pub fn new(target: RegisterIndex, source: RegisterIndex) -> (r: Self)
        ensures
            r.target == target,
            r.source == source,
    {
        Self { target: target, source: source }
    }

    /// The instruction as program text.
    pub fn formatted_instruction(&self) -> (r: String)
        ensures
            r@ == move_text(self.target, index_text(self.source)),
    {
        let mut text = String::from_str("mov ");
        text.append(self.target.to_string().as_str());
        text.append(",");
        text.append(self.source.to_string().as_str());
        text
    }

    /// Runs the instruction on `state`. A move never fails.
    pub fn eval(&self, state: &mut ProgramState, _cache: &mut ProgramCache) -> (r: Result<
        (),
        EvalError,
    >)
        ensures
            r == Ok::<(), EvalError>(()),
            final(state)@.step_count == old(state)@.step_count,
            final(state)@.registers == old(state)@.registers.insert(
                self.target,
                old(state)@.registers[self.source],
            ),
            *final(_cache) == *old(_cache),
    {
        let value: RegisterValue = state.get_register_value(&self.source);
        state.set_register_value(self.target, value);
        Ok(())
    }

    /// Appends the registers that the instruction names: target, then source.
    pub fn accumulate_register_indexes(&self, register_vec: &mut Vec<RegisterIndex>)
        ensures
            final(register_vec)@ == old(register_vec)@.push(self.target).push(self.source),
    {
        register_vec.push(self.target);
        register_vec.push(self.source);
    }

    /// Carries liveness forward: the target is live behind the move exactly
    /// when the source is live before it.
    pub fn live_register_indexes(&self, register_set: &mut HashSet<u8>)
        ensures
            final(register_set)@ == if old(register_set)@.contains(self.source.0) {
                old(register_set)@.insert(self.target.0)
            } else {
                old(register_set)@.remove(self.target.0)
            },
    {
        broadcast use vstd::std_specs::hash::group_hash_axioms;

        if register_set.contains(&self.source.0) {
            register_set.insert(self.target.0);
        } else {
            register_set.remove(&self.target.0);
        }
    }
}

/// Writes a constant into the target register.
pub struct NodeMoveConstant {
    pub target: RegisterIndex,
    pub source: RegisterValue,
}

impl NodeMoveConstant {
    pub fn new(target: RegisterIndex, source: RegisterValue) -> (r: Self)
        ensures
            r.target == target,
            r.source == source,
    {
        Self { target: target, source: source }
    }

    /// The instruction as program text.
    pub fn formatted_instruction(&self) -> (r: String)
        ensures
            r@ == move_text(self.target, decimal_text(self.source@)),
    {
        let mut text = String::from_str("mov ");
        text.append(self.target.to_string().as_str());
        text.append(",");
        text.append(self.source.to_string().as_str());
        text
    }

    /// Runs the instruction on `state`. A move never fails.
    pub fn eval(&self, state: &mut ProgramState, _cache: &mut ProgramCache) -> (r: Result<
        (),
        EvalError,
    >)
        ensures
            r == Ok::<(), EvalError>(()),
            final(state)@.step_count == old(state)@.step_count,
            final(state)@.registers == old(state)@.registers.insert(self.target, self.source@),
            *final(_cache) == *old(_cache),
    {
        state.set_register_value(self.target, self.source.clone());
        Ok(())
    }

    /// Appends the register that the instruction names: the target.
    pub fn accumulate_register_indexes(&self, register_vec: &mut Vec<RegisterIndex>)
        ensures
            final(register_vec)@ == old(register_vec)@.push(self.target),
    {
        register_vec.push(self.target);
    }

    /// Carries liveness forward: a register that receives a constant is not
    /// live behind the move.
    pub fn live_register_indexes(&self, register_set: &mut HashSet<u8>)
        ensures
            final(register_set)@ == old(register_set)@.remove(self.target.0),
    {
        broadcast use vstd::std_specs::hash::group_hash_axioms;

        register_set.remove(&self.target.0);
    }
}

} // verus!
