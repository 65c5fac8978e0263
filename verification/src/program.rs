//! A program: nodes that run in sequence on one state, under a step budget.

use crate::node::{
    machine_of, nodes_view, program_live_after, program_registers, program_text, run_outcome,
    Machine, Node, NodeView, INPUT_OUTPUT_REGISTER,
};
use crate::program_cache::ProgramCache;
use crate::program_state::{EvalError, ProgramState};
use crate::register_value::{term_values, RegisterIndex, RegisterValue};
use std::collections::HashSet;
use vstd::prelude::*;
use vstd::string::StringExecFns;

verus! {

/// The machine in which a program starts on `input`: the input in register
/// zero, zero everywhere else, no step taken, nothing remembered.
pub open spec fn start_machine(input: int) -> Machine {
    Machine {
        registers: Map::total(|index: RegisterIndex| 0int).insert(
            RegisterIndex(INPUT_OUTPUT_REGISTER),
            input,
        ),
        step_count: 0,
        cache: Map::empty(),
    }
}

/// The term that a program gives for `input`: what register zero holds after
/// a run from the start machine, or the fault that stopped the run.
pub open spec fn term_outcome(nodes: Seq<NodeView>, input: int, limit: u64) -> Result<
    int,
    EvalError,
> {
    let (end, result) = run_outcome(nodes, 0, start_machine(input), limit);
    match result {
        Ok(()) => Ok(end.registers[RegisterIndex(INPUT_OUTPUT_REGISTER)]),
        Err(e) => Err(e),
    }
}

/// The first fault among the terms for the inputs from `from` up to `to`, if
/// any of them fails.
pub open spec fn terms_fault(nodes: Seq<NodeView>, from: int, to: int, limit: u64) -> Option<
    EvalError,
>
    decreases to - from,
{
    if from >= to {
        None
    } else {
        match term_outcome(nodes, from, limit) {
            Err(e) => Some(e),
            Ok(_) => terms_fault(nodes, from + 1, to, limit),
        }
    }
}

/// The terms for the inputs from `from` up to `to`, where none of them fails.
pub open spec fn terms_between(nodes: Seq<NodeView>, from: int, to: int, limit: u64) -> Seq<int> {
    Seq::new(
        if from <= to {
            (to - from) as nat
        } else {
            0
        },
        |k: int| term_outcome(nodes, from + k, limit)->Ok_0,
    )
}

/// An ordered sequence of nodes.
pub struct Program {
    pub node_vec: Vec<Node>,
}

impl View for Program {
    type V = Seq<NodeView>;

    open spec fn view(&self) -> Seq<NodeView> {
        nodes_view(self.node_vec@)
    }
}

impl Clone for Program {
    fn clone(&self) -> (r: Self)
        ensures
            r@ == self@,
        decreases self, 1nat,
    {
        let mut node_vec: Vec<Node> = Vec::new();
        let mut i: usize = 0;
        while i < self.node_vec.len()
            invariant
                i <= self.node_vec@.len(),
                node_vec@.len() == i,
                forall|k: int| 0 <= k < i ==> (#[trigger] node_vec@[k])@ == self.node_vec@[k]@,
            decreases self.node_vec@.len() - i,
        {
            node_vec.push(self.node_vec[i].clone());
            i += 1;
        }
        let r = Program { node_vec };
        assert(r@ =~= self@);
        r
    }
}

impl Program {
    /// The program made of `node_vec`.
    pub fn new(node_vec: Vec<Node>) -> (r: Self)
        ensures
            r.node_vec == node_vec,
    {
        Program { node_vec }
    }

    /// Number of nodes at the top level.
    pub fn len(&self) -> (r: usize)
        ensures
            r == self@.len(),
    {
        self.node_vec.len()
    }

    /// Runs the nodes in sequence on `state`, each for one step of the budget
    /// `step_limit`.
    pub fn run(&self, state: &mut ProgramState, cache: &mut ProgramCache, step_limit: u64) -> (r:
        Result<(), EvalError>)
        ensures
            (machine_of(*final(state), *final(cache)), r) == run_outcome(
                self@,
                0,
                machine_of(*old(state), *old(cache)),
                step_limit,
            ),
        decreases self, 1nat,
    {
        let mut i: usize = 0;
        while i < self.node_vec.len()
            invariant
                i <= self.node_vec@.len(),
                run_outcome(self@, 0, machine_of(*old(state), *old(cache)), step_limit)
                    == run_outcome(self@, i as int, machine_of(*state, *cache), step_limit),
            decreases self.node_vec@.len() - i,
        {
            let ghost before = machine_of(*state, *cache);
            match state.take_step(step_limit) {
                Ok(()) => {},
                Err(e) => {
                    assert(machine_of(*state, *cache) == before);
                    return Err(e);
                },
            }
            assert(machine_of(*state, *cache) == Machine {
                step_count: before.step_count + 1,
                ..before
            });
            let result = self.node_vec[i].eval(state, cache, step_limit);
            match result {
                Ok(()) => {},
                Err(e) => {
                    return Err(e);
                },
            }
            i += 1;
        }
        Ok(())
    }

    /// The term that the program gives for `input`, computed with a cache of
    /// its own.
    pub fn compute(&self, input: &RegisterValue, step_limit: u64) -> (r: Result<
        RegisterValue,
        EvalError,
    >)
        ensures
            match r {
                Ok(output) => term_outcome(self@, input@, step_limit) == Ok::<int, EvalError>(
                    output@,
                ),
                Err(e) => term_outcome(self@, input@, step_limit) == Err::<int, EvalError>(e),
            },
    {
        let mut state = ProgramState::new();
        let mut cache = ProgramCache::new();
        state.set_register_value(RegisterIndex(INPUT_OUTPUT_REGISTER), input.clone());
        assert(machine_of(state, cache) == start_machine(input@));
        match self.run(&mut state, &mut cache, step_limit) {
            Ok(()) => Ok(state.get_register_value(&RegisterIndex(INPUT_OUTPUT_REGISTER))),
            Err(e) => Err(e),
        }
    }

    /// The terms that the program gives for the inputs from `from` up to
    /// `to`, or the first fault among them.
    pub fn compute_terms(&self, from: usize, to: usize, step_limit: u64) -> (r: Result<
        Vec<RegisterValue>,
        EvalError,
    >)
        ensures
            match r {
                Ok(terms) => terms_fault(self@, from as int, to as int, step_limit) is None
                    && term_values(terms@) == terms_between(
                    self@,
                    from as int,
                    to as int,
                    step_limit,
                ),
                Err(e) => terms_fault(self@, from as int, to as int, step_limit) == Some(e),
            },
    {
        let mut terms: Vec<RegisterValue> = Vec::new();
        let mut n: usize = from;
        while n < to
            invariant
                from <= n <= to || (to < from && n == from),
                terms@.len() == n - from,
                terms_fault(self@, from as int, to as int, step_limit) == terms_fault(
                    self@,
                    n as int,
                    to as int,
                    step_limit,
                ),
                forall|k: int|
                    0 <= k < terms@.len() ==> term_outcome(self@, from + k, step_limit) == Ok::<
                        int,
                        EvalError,
                    >((#[trigger] terms@[k])@),
            decreases to - n,
        {
            let input = RegisterValue::from_u64(n as u64);
            match self.compute(&input, step_limit) {
                Ok(term) => {
                    terms.push(term);
                },
                Err(e) => {
                    return Err(e);
                },
            }
            n += 1;
        }
        assert(term_values(terms@) =~= terms_between(self@, from as int, to as int, step_limit));
        Ok(terms)
    }

    /// The program as text, one node per line; the body of a loop stands
    /// between the loop's head and end.
    pub fn to_string(&self) -> (r: String)
        ensures
            r@ == program_text(self@, self@.len() as int),
        decreases self, 1nat,
    {
        let mut text = String::new();
        let mut i: usize = 0;
        while i < self.node_vec.len()
            invariant
                i <= self.node_vec@.len(),
                text@ == program_text(self@, i as int),
            decreases self.node_vec@.len() - i,
        {
            text.append(self.node_vec[i].formatted_instruction().as_str());
            text.append("\n");
            i += 1;
        }
        text
    }

    /// Appends the registers that the nodes name, in the order of the program
    /// text.
    pub fn accumulate_register_indexes(&self, register_vec: &mut Vec<RegisterIndex>)
        ensures
            final(register_vec)@ == old(register_vec)@ + program_registers(
                self@,
                self@.len() as int,
            ),
        decreases self, 1nat,
    {
        let mut i: usize = 0;
        assert(register_vec@ =~= old(register_vec)@ + program_registers(self@, 0));
        while i < self.node_vec.len()
            invariant
                i <= self.node_vec@.len(),
                register_vec@ == old(register_vec)@ + program_registers(self@, i as int),
            decreases self.node_vec@.len() - i,
        {
            self.node_vec[i].accumulate_register_indexes(register_vec);
            i += 1;
            assert(register_vec@ =~= old(register_vec)@ + program_registers(self@, i as int));
        }
    }

    /// Carries the set of live registers across the whole program.
    pub fn live_register_indexes(&self, register_set: &mut HashSet<u8>)
        ensures
            final(register_set)@ == program_live_after(
                self@,
                self@.len() as int,
                old(register_set)@,
            ),
    {
        let mut i: usize = 0;
        while i < self.node_vec.len()
            invariant
                i <= self.node_vec@.len(),
                register_set@ == program_live_after(self@, i as int, old(register_set)@),
            decreases self.node_vec@.len() - i,
        {
            self.node_vec[i].live_register_indexes(register_set);
            i += 1;
        }
    }
}

} // verus!
