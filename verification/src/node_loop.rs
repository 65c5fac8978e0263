//! The loop: runs its body while a counter register decreases and stays
//! non-negative.

use crate::node::{
    loop_measure, loop_outcome, machine_of, node_live_after, node_registers, node_text,
    nodes_view, register_numbers, NodeView,
};
use crate::program::Program;
use crate::program_cache::ProgramCache;
use crate::program_state::{EvalError, ProgramState};
use crate::register_value::{RegisterIndex, RegisterValue};
use std::collections::HashSet;
use vstd::prelude::*;
use vstd::string::StringExecFns;

verus! {

/// A loop over `program`, counted by `register`.
pub struct NodeLoopRegister {
    pub register: RegisterIndex,
    pub program: Program,
}

impl NodeLoopRegister {
    pub fn new(register: RegisterIndex, program: Program) -> (r: Self)
        ensures
            r.register == register,
            r.program == program,
    {
        Self { register: register, program: program }
    }

    /// What the loop stands for.
    pub open spec fn node_view(&self) -> NodeView {
        NodeView::Loop { counter: self.register, body: nodes_view(self.program.node_vec@) }
    }

    /// The loop as program text: its head, its body, its end.
    pub fn formatted_instruction(&self) -> (r: String)
        ensures
            r@ == node_text(self.node_view()),
        decreases self, 0nat,
    {
        let mut text = String::from_str("lpb ");
        text.append(self.register.to_string().as_str());
        text.append("\n");
        text.append(self.program.to_string().as_str());
        text.append("lpe");
        text
    }

    /// Runs the loop on `state`.
    pub fn eval(&self, state: &mut ProgramState, cache: &mut ProgramCache, step_limit: u64) -> (r:
        Result<(), EvalError>)
        ensures
            (machine_of(*final(state), *final(cache)), r) == loop_outcome(
                nodes_view(self.program.node_vec@),
                self.register,
                machine_of(*old(state), *old(cache)),
                step_limit,
            ),
        decreases self, 0nat,
    {
        let ghost body = nodes_view(self.program.node_vec@);
        let ghost start = machine_of(*old(state), *old(cache));
        loop
            invariant
                body == nodes_view(self.program.node_vec@),
                start == machine_of(*old(state), *old(cache)),
                loop_outcome(body, self.register, start, step_limit) == loop_outcome(
                    body,
                    self.register,
                    machine_of(*state, *cache),
                    step_limit,
                ),
            decreases loop_measure(state@.registers[self.register]),
        {
            let saved = state.clone();
            let old_value: RegisterValue = state.get_register_value(&self.register);
            match self.program.run(state, cache, step_limit) {
                Ok(()) => {},
                Err(e) => {
                    return Err(e);
                },
            }
            let new_value: RegisterValue = state.get_register_value(&self.register);
            let zero = RegisterValue::zero();
            if new_value.less_than(&zero) || !new_value.less_than(&old_value) {
                state.restore_registers(saved);
                return Ok(());
            }
        }
    }

    /// Appends the registers that the loop names: the counter, then those of
    /// the body.
    pub fn accumulate_register_indexes(&self, register_vec: &mut Vec<RegisterIndex>)
        ensures
            final(register_vec)@ == old(register_vec)@ + node_registers(self.node_view()),
        decreases self, 0nat,
    {
        register_vec.push(self.register);
        self.program.accumulate_register_indexes(register_vec);
        assert(register_vec@ =~= old(register_vec)@ + node_registers(self.node_view()));
    }

    /// Carries liveness forward: behind a loop every register that the loop
    /// names counts as live.
    pub fn live_register_indexes(&self, register_set: &mut HashSet<u8>)
        ensures
            final(register_set)@ == node_live_after(self.node_view(), old(register_set)@),
    {
        broadcast use vstd::std_specs::hash::group_hash_axioms;

        let mut registers: Vec<RegisterIndex> = Vec::new();
        self.accumulate_register_indexes(&mut registers);
        assert(registers@ =~= node_registers(self.node_view()));
        let mut i: usize = 0;
        while i < registers.len()
            invariant
                i <= registers@.len(),
                register_set@ == old(register_set)@.union(
                    register_numbers(registers@.take(i as int)),
                ),
            decreases registers@.len() - i,
        {
            register_set.insert(registers[i].0);
            proof {
                let earlier = registers@.take(i as int);
                let later = registers@.take(i + 1);
                let added = registers@[i as int];
                let before = register_numbers(earlier);
                let after = register_numbers(later);
                assert forall|number: u8| after.contains(number) <==> before.insert(
                    added.0,
                ).contains(number) by {
                    let wanted = RegisterIndex(number);
                    if later.contains(wanted) {
                        let k = choose|k: int| 0 <= k < later.len() && later[k] == wanted;
                        if k < i {
                            assert(earlier[k] == wanted);
                        } else {
                            assert(added == wanted);
                        }
                    }
                    if earlier.contains(wanted) {
                        let k = choose|k: int| 0 <= k < earlier.len() && earlier[k] == wanted;
                        assert(later[k] == wanted);
                    }
                    if number == added.0 {
                        assert(later[i as int] == wanted);
                    }
                }
                assert(after =~= before.insert(added.0));
                assert(register_set@ =~= old(register_set)@.union(after));
            }
            i += 1;
        }
        assert(registers@.take(i as int) =~= registers@);
    }
}

} // verus!
