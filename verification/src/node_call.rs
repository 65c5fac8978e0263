//! The call of another program as a subroutine, with its results remembered
//! for the rest of the evaluation.

use crate::node::{
    call_machine, machine_of, node_live_after, node_outcome, node_registers, node_text,
    nodes_view, NodeView, INPUT_OUTPUT_REGISTER,
};
use crate::program::Program;
use crate::program_cache::ProgramCache;
use crate::program_state::{EvalError, ProgramState};
use crate::register_value::{term_values, RegisterIndex, RegisterValue};
use crate::text::decimal_string;
use std::collections::HashSet;
use vstd::prelude::*;
use vstd::string::StringExecFns;

verus! {

/// A call of `program`, known as `program_id`, on the value of `target`.
pub struct NodeCall {
    pub target: RegisterIndex,
    pub program_id: u64,
    pub program: Program,
}

impl NodeCall {
    pub fn new(target: RegisterIndex, program_id: u64, program: Program) -> (r: Self)
        ensures
            r.target == target,
            r.program_id == program_id,
            r.program == program,
    {
        Self { target: target, program_id: program_id, program: program }
    }

    /// What the call stands for.
    pub open spec fn node_view(&self) -> NodeView {
        NodeView::Call {
            target: self.target,
            program_id: self.program_id,
            body: nodes_view(self.program.node_vec@),
        }
    }

    /// The call as program text.
    pub fn formatted_instruction(&self) -> (r: String)
        ensures
            r@ == node_text(self.node_view()),
    {
        let mut text = String::from_str("seq ");
        text.append(self.target.to_string().as_str());
        text.append(",");
        text.append(decimal_string(self.program_id).as_str());
        text
    }

    /// Runs the call on `state`: takes the result from the cache, or runs
    /// the called program and remembers its result.
    pub fn eval(&self, state: &mut ProgramState, cache: &mut ProgramCache, step_limit: u64) -> (r:
        Result<(), EvalError>)
        ensures
            (machine_of(*final(state), *final(cache)), r) == node_outcome(
                self.node_view(),
                machine_of(*old(state), *old(cache)),
                step_limit,
            ),
        decreases self, 0nat,
    {
        let input: RegisterValue = state.get_register_value(&self.target);
        let mut key: Vec<RegisterValue> = Vec::new();
        key.push(input.clone());
        assert(term_values(key@) =~= seq![input@]);
        match cache.get(self.program_id, &key) {
            Some(output) => {
                state.set_register_value(self.target, output);
                return Ok(());
            },
            None => {},
        }
        let mut callee = ProgramState::new_for_call(state);
        callee.set_register_value(RegisterIndex(INPUT_OUTPUT_REGISTER), input);
        assert(machine_of(callee, *cache) == call_machine(
            machine_of(*old(state), *old(cache)),
            input@,
        ));
        let result = self.program.run(&mut callee, cache, step_limit);
        state.resume_after_call(&callee);
        match result {
            Ok(()) => {},
            Err(e) => {
                return Err(e);
            },
        }
        let output: RegisterValue = callee.get_register_value(&RegisterIndex(INPUT_OUTPUT_REGISTER));
        cache.set(self.program_id, &key, output.clone());
        state.set_register_value(self.target, output);
        Ok(())
    }

    /// Appends the register that the call names: the target.
    pub fn accumulate_register_indexes(&self, register_vec: &mut Vec<RegisterIndex>)
        ensures
            final(register_vec)@ == old(register_vec)@ + node_registers(self.node_view()),
    {
        register_vec.push(self.target);
        assert(register_vec@ =~= old(register_vec)@ + node_registers(self.node_view()));
    }

    /// Carries liveness forward: the target stays as live as it was.
    pub fn live_register_indexes(&self, register_set: &mut HashSet<u8>)
        ensures
            final(register_set)@ == node_live_after(self.node_view(), old(register_set)@),
    {
    }
}

} // verus!
