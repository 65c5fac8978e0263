//! The instruction kinds as one closed type, with one meaning for evaluation,
//! program text and dataflow.

use crate::node_arithmetic::{
    arithmetic_effect, arithmetic_text, ArithmeticOperation, NodeArithmeticConstant,
    NodeArithmeticRegister,
};
use crate::node_call::NodeCall;
use crate::node_compare::{compare_outcome, compare_text, NodeCompareConstant, NodeCompareRegister};
use crate::node_divide::{divide_effect, divide_text, NodeDivideConstant, NodeDivideRegister};
use crate::node_loop::NodeLoopRegister;
use crate::node_move::{move_text, NodeMoveConstant, NodeMoveRegister};
use crate::program_cache::ProgramCache;
use crate::program_state::{EvalError, ProgramState};
use crate::register_value::{index_text, RegisterIndex};
use crate::text::{decimal_digits, decimal_text};
use std::collections::HashSet;
use vstd::prelude::*;

verus! {

/// The register that holds the input before a run and the output after it.
pub const INPUT_OUTPUT_REGISTER: u8 = 0;

/// What an instruction does with its target and its operand.
#[derive(Clone, Copy, Debug, PartialEq, Eq, Structural)]
pub enum Operation {
    Move,
    Add,
    Subtract,
    Multiply,
    Divide,
    Compare,
}

/// The second operand of an instruction as the contracts see it.
pub ghost enum OperandView {
    Register(RegisterIndex),
    Constant(int),
}

/// An instruction on a target and an operand, as the contracts see it.
pub ghost struct InstructionView {
    pub operation: Operation,
    pub target: RegisterIndex,
    pub source: OperandView,
}

/// A node of a program as the contracts see it.
pub ghost enum NodeView {
    /// An instruction on a target and an operand.
    Instruction(InstructionView),
    /// A loop over `body` that runs while `counter` decreases and stays
    /// non-negative.
    Loop { counter: RegisterIndex, body: Seq<NodeView> },
    /// A call of the program `program_id`, whose instructions are `body`, on
    /// the value of `target`.
    Call { target: RegisterIndex, program_id: u64, body: Seq<NodeView> },
}

/// What an evaluation works on: the registers, the steps taken, and the
/// results of calls that the cache remembers.
pub ghost struct Machine {
    pub registers: Map<RegisterIndex, int>,
    pub step_count: nat,
    pub cache: Map<(u64, Seq<int>), int>,
}

/// The value of an operand under the given registers.
pub open spec fn operand_value(registers: Map<RegisterIndex, int>, source: OperandView) -> int {
    match source {
        OperandView::Register(index) => registers[index],
        OperandView::Constant(value) => value,
    }
}

/// How an operand is written in program text.
pub open spec fn operand_text(source: OperandView) -> Seq<char> {
    match source {
        OperandView::Register(index) => index_text(index),
        OperandView::Constant(value) => decimal_text(value),
    }
}

/// What an instruction does to the registers, and whether it succeeds. A
/// failing instruction changes nothing.
pub open spec fn instruction_effect(
    instruction: InstructionView,
    registers: Map<RegisterIndex, int>,
) -> (Map<RegisterIndex, int>, Result<(), EvalError>) {
    let operand = operand_value(registers, instruction.source);
    match instruction.operation {
        Operation::Move => (registers.insert(instruction.target, operand), Ok(())),
        Operation::Add => arithmetic_effect(
            ArithmeticOperation::Add,
            registers,
            instruction.target,
            operand,
        ),
        Operation::Subtract => arithmetic_effect(
            ArithmeticOperation::Subtract,
            registers,
            instruction.target,
            operand,
        ),
        Operation::Multiply => arithmetic_effect(
            ArithmeticOperation::Multiply,
            registers,
            instruction.target,
            operand,
        ),
        Operation::Divide => divide_effect(registers, instruction.target, operand),
        Operation::Compare => (
            registers.insert(
                instruction.target,
                compare_outcome(registers[instruction.target], operand),
            ),
            Ok(()),
        ),
    }
}

/// An instruction as program text.
pub open spec fn instruction_text(instruction: InstructionView) -> Seq<char> {
    match instruction.operation {
        Operation::Move => move_text(instruction.target, operand_text(instruction.source)),
        Operation::Add => arithmetic_text(
            ArithmeticOperation::Add,
            instruction.target,
            operand_text(instruction.source),
        ),
        Operation::Subtract => arithmetic_text(
            ArithmeticOperation::Subtract,
            instruction.target,
            operand_text(instruction.source),
        ),
        Operation::Multiply => arithmetic_text(
            ArithmeticOperation::Multiply,
            instruction.target,
            operand_text(instruction.source),
        ),
        Operation::Divide => divide_text(instruction.target, operand_text(instruction.source)),
        Operation::Compare => compare_text(instruction.target, operand_text(instruction.source)),
    }
}

/// The registers that an instruction names: the target, then the source
/// register if there is one.
pub open spec fn instruction_registers(instruction: InstructionView) -> Seq<RegisterIndex> {
    match instruction.source {
        OperandView::Register(index) => seq![instruction.target, index],
        OperandView::Constant(_) => seq![instruction.target],
    }
}

/// The registers that depend on the program's input behind the instruction,
/// given those that do before it.
///
/// A move makes its target as live as its source, and a constant is never
/// live. The other instructions read their target too, so they can only add
/// the target.
pub open spec fn instruction_live_after(instruction: InstructionView, live: Set<u8>) -> Set<u8> {
    match (instruction.operation, instruction.source) {
        (Operation::Move, OperandView::Register(index)) => if live.contains(index.0) {
            live.insert(instruction.target.0)
        } else {
            live.remove(instruction.target.0)
        },
        (Operation::Move, OperandView::Constant(_)) => live.remove(instruction.target.0),
        (_, OperandView::Register(index)) => if live.contains(index.0) {
            live.insert(instruction.target.0)
        } else {
            live
        },
        (_, OperandView::Constant(_)) => live,
    }
}

/// The operation that an arithmetic instruction stands for.
pub open spec fn arithmetic_operation(operation: ArithmeticOperation) -> Operation {
    match operation {
        ArithmeticOperation::Add => Operation::Add,
        ArithmeticOperation::Subtract => Operation::Subtract,
        ArithmeticOperation::Multiply => Operation::Multiply,
    }
}

/// The machine in which a called program starts: the input in register zero,
/// zero everywhere else, the caller's step count and cache.
pub open spec fn call_machine(caller: Machine, input: int) -> Machine {
    Machine {
        registers: Map::total(|index: RegisterIndex| 0int).insert(
            RegisterIndex(INPUT_OUTPUT_REGISTER),
            input,
        ),
        step_count: caller.step_count,
        cache: caller.cache,
    }
}

/// What a node does to the machine, and whether it succeeds.
///
/// - An instruction works on the registers.
/// - A loop runs its body again and again; see [`loop_outcome`].
/// - A call looks its input up in the cache. On a hit the target receives
///   the remembered output and nothing runs. On a miss the called program
///   runs on a machine of its own, its steps counting against the same
///   budget; its output goes to the target and into the cache. A fault in
///   the called program fails the call and leaves the caller's registers
///   alone.
pub open spec fn node_outcome(node: NodeView, machine: Machine, limit: u64) -> (
    Machine,
    Result<(), EvalError>,
)
    decreases node, 0nat, 0nat,
{
    match node {
        NodeView::Instruction(instruction) => {
            let (registers, result) = instruction_effect(instruction, machine.registers);
            (Machine { registers, ..machine }, result)
        },
        NodeView::Loop { counter, body } => loop_outcome(body, counter, machine, limit),
        NodeView::Call { target, program_id, body } => {
            let input = machine.registers[target];
            let key = (program_id, seq![input]);
            if machine.cache.dom().contains(key) {
                (
                    Machine {
                        registers: machine.registers.insert(target, machine.cache[key]),
                        ..machine
                    },
                    Ok(()),
                )
            } else {
                let (end, result) = run_outcome(body, 0, call_machine(machine, input), limit);
                let output = end.registers[RegisterIndex(INPUT_OUTPUT_REGISTER)];
                if result is Err {
                    (
                        Machine {
                            registers: machine.registers,
                            step_count: end.step_count,
                            cache: end.cache,
                        },
                        result,
                    )
                } else {
                    (
                        Machine {
                            registers: machine.registers.insert(target, output),
                            step_count: end.step_count,
                            cache: end.cache.insert(key, output),
                        },
                        Ok(()),
                    )
                }
            }
        },
    }
}

/// What running the nodes from position `from` on does to the machine.
///
/// Every node costs one step, a loop or a call besides the steps of what it
/// runs. When `limit` steps are used up, the run stops with
/// `StepLimitExceeded` before the next node. The first failing node stops
/// the run.
pub open spec fn run_outcome(nodes: Seq<NodeView>, from: int, machine: Machine, limit: u64) -> (
    Machine,
    Result<(), EvalError>,
)
    decreases nodes, 1nat, nodes.len() - from,
{
    if from < 0 || from >= nodes.len() {
        (machine, Ok(()))
    } else if machine.step_count >= limit {
        (machine, Err(EvalError::StepLimitExceeded))
    } else {
        let stepped = Machine { step_count: machine.step_count + 1, ..machine };
        let (next, result) = node_outcome(nodes[from], stepped, limit);
        if result is Err {
            (next, result)
        } else {
            run_outcome(nodes, from + 1, next, limit)
        }
    }
}

/// What a loop does to the machine.
///
/// The body runs. If the counter then holds a smaller value that is not
/// negative, the loop goes round again. If not, the registers are put back
/// as they were before this last run of the body, and the loop ends; the
/// steps stay counted and the cache keeps what it learned. A fault in the
/// body stops the loop.
pub open spec fn loop_outcome(
    body: Seq<NodeView>,
    counter: RegisterIndex,
    machine: Machine,
    limit: u64,
) -> (Machine, Result<(), EvalError>)
    decreases body, 2nat, loop_measure(machine.registers[counter]),
{
    let (next, result) = run_outcome(body, 0, machine, limit);
    if result is Err {
        (next, result)
    } else if 0 <= next.registers[counter] < machine.registers[counter] {
        loop_outcome(body, counter, next, limit)
    } else {
        (
            Machine {
                registers: machine.registers,
                step_count: next.step_count,
                cache: next.cache,
            },
            Ok(()),
        )
    }
}

/// How many more times a loop can go round at most: the counter's value, or
/// zero if that is negative.
pub open spec fn loop_measure(counter_value: int) -> nat {
    if counter_value < 0 {
        0
    } else {
        counter_value as nat
    }
}

/// The step counter never goes back: a node leaves it at or above where it
/// found it, and fails for want of steps only with the budget used up.
pub proof fn lemma_node_steps(node: NodeView, machine: Machine, limit: u64)
    ensures
        node_outcome(node, machine, limit).0.step_count >= machine.step_count,
        node_outcome(node, machine, limit).1 == Err::<(), EvalError>(
            EvalError::StepLimitExceeded,
        ) ==> node_outcome(node, machine, limit).0.step_count >= limit,
    decreases node, 0nat, 0nat,
{
    match node {
        NodeView::Instruction(instruction) => {},
        NodeView::Loop { counter, body } => {
            lemma_loop_steps(body, counter, machine, limit);
        },
        NodeView::Call { target, program_id, body } => {
            lemma_run_steps(body, 0, call_machine(machine, machine.registers[target]), limit);
        },
    }
}

/// The step counter never goes back: a run leaves it at or above where it
/// found it, and stops for want of steps only with the budget used up.
pub proof fn lemma_run_steps(nodes: Seq<NodeView>, from: int, machine: Machine, limit: u64)
    ensures
        run_outcome(nodes, from, machine, limit).0.step_count >= machine.step_count,
        run_outcome(nodes, from, machine, limit).1 == Err::<(), EvalError>(
            EvalError::StepLimitExceeded,
        ) ==> run_outcome(nodes, from, machine, limit).0.step_count >= limit,
    decreases nodes, 1nat, nodes.len() - from,
{
    if 0 <= from < nodes.len() && machine.step_count < limit {
        let stepped = Machine { step_count: machine.step_count + 1, ..machine };
        lemma_node_steps(nodes[from], stepped, limit);
        let (next, result) = node_outcome(nodes[from], stepped, limit);
        if result is Ok {
            lemma_run_steps(nodes, from + 1, next, limit);
        }
    }
}

/// The step counter never goes back: a loop leaves it at or above where it
/// found it, and fails for want of steps only with the budget used up.
pub proof fn lemma_loop_steps(
    body: Seq<NodeView>,
    counter: RegisterIndex,
    machine: Machine,
    limit: u64,
)
    ensures
        loop_outcome(body, counter, machine, limit).0.step_count >= machine.step_count,
        loop_outcome(body, counter, machine, limit).1 == Err::<(), EvalError>(
            EvalError::StepLimitExceeded,
        ) ==> loop_outcome(body, counter, machine, limit).0.step_count >= limit,
    decreases body, 2nat, loop_measure(machine.registers[counter]),
{
    lemma_run_steps(body, 0, machine, limit);
    let (next, result) = run_outcome(body, 0, machine, limit);
    if result is Ok && 0 <= next.registers[counter] < machine.registers[counter] {
        lemma_loop_steps(body, counter, next, limit);
    }
}

/// A node as program text. A loop takes several lines: its head, its body,
/// its end.
pub open spec fn node_text(node: NodeView) -> Seq<char>
    decreases node, 0nat, 0nat,
{
    match node {
        NodeView::Instruction(instruction) => instruction_text(instruction),
        NodeView::Loop { counter, body } => "lpb "@ + index_text(counter) + "\n"@ + program_text(
            body,
            body.len() as int,
        ) + "lpe"@,
        NodeView::Call { target, program_id, body } => "seq "@ + index_text(target) + ","@
            + decimal_digits(program_id as nat),
    }
}

/// The program text of the nodes before position `to`, one line feed behind
/// each node.
pub open spec fn program_text(nodes: Seq<NodeView>, to: int) -> Seq<char>
    decreases nodes, 1nat, to,
{
    if to <= 0 || to > nodes.len() {
        Seq::empty()
    } else {
        program_text(nodes, to - 1) + node_text(nodes[to - 1]) + "\n"@
    }
}

/// The registers that a node names, in the order of the program text. A call
/// names its target; the registers of the called program are its own.
pub open spec fn node_registers(node: NodeView) -> Seq<RegisterIndex>
    decreases node, 0nat, 0nat,
{
    match node {
        NodeView::Instruction(instruction) => instruction_registers(instruction),
        NodeView::Loop { counter, body } => seq![counter] + program_registers(
            body,
            body.len() as int,
        ),
        NodeView::Call { target, program_id, body } => seq![target],
    }
}

/// The registers named by the nodes before position `to`, in order.
pub open spec fn program_registers(nodes: Seq<NodeView>, to: int) -> Seq<RegisterIndex>
    decreases nodes, 1nat, to,
{
    if to <= 0 || to > nodes.len() {
        Seq::empty()
    } else {
        program_registers(nodes, to - 1) + node_registers(nodes[to - 1])
    }
}

/// The numbers of the registers in a list.
pub open spec fn register_numbers(registers: Seq<RegisterIndex>) -> Set<u8> {
    Set::new(|number: u8| registers.contains(RegisterIndex(number)))
}

/// The registers that depend on the program's input behind the node, given
/// those that do before it.
///
/// Behind a loop every register that the loop names counts as live, so that
/// none is taken for dead that is not. A call leaves its target as live as
/// it was.
pub open spec fn node_live_after(node: NodeView, live: Set<u8>) -> Set<u8> {
    match node {
        NodeView::Instruction(instruction) => instruction_live_after(instruction, live),
        NodeView::Loop { counter, body } => live.union(register_numbers(node_registers(node))),
        NodeView::Call { target, program_id, body } => live,
    }
}

/// The live registers behind the nodes before position `to`, given those live
/// at the start.
pub open spec fn program_live_after(nodes: Seq<NodeView>, to: int, live: Set<u8>) -> Set<u8>
    decreases to,
{
    if to <= 0 || to > nodes.len() {
        live
    } else {
        node_live_after(nodes[to - 1], program_live_after(nodes, to - 1, live))
    }
}

/// One node of a program.
pub enum Node {
    MoveRegister(NodeMoveRegister),
    MoveConstant(NodeMoveConstant),
    ArithmeticRegister(NodeArithmeticRegister),
    ArithmeticConstant(NodeArithmeticConstant),
    DivideRegister(NodeDivideRegister),
    DivideConstant(NodeDivideConstant),
    CompareRegister(NodeCompareRegister),
    CompareConstant(NodeCompareConstant),
    Loop(NodeLoopRegister),
    Call(NodeCall),
}

/// What a node stands for.
pub open spec fn node_view(node: Node) -> NodeView
    decreases node, 0nat,
{
    match node {
        Node::MoveRegister(node) => NodeView::Instruction(
            InstructionView {
                operation: Operation::Move,
                target: node.target,
                source: OperandView::Register(node.source),
            },
        ),
        Node::MoveConstant(node) => NodeView::Instruction(
            InstructionView {
                operation: Operation::Move,
                target: node.target,
                source: OperandView::Constant(node.source@),
            },
        ),
        Node::ArithmeticRegister(node) => NodeView::Instruction(
            InstructionView {
                operation: arithmetic_operation(node.operation),
                target: node.target,
                source: OperandView::Register(node.source),
            },
        ),
        Node::ArithmeticConstant(node) => NodeView::Instruction(
            InstructionView {
                operation: arithmetic_operation(node.operation),
                target: node.target,
                source: OperandView::Constant(node.source@),
            },
        ),
        Node::DivideRegister(node) => NodeView::Instruction(
            InstructionView {
                operation: Operation::Divide,
                target: node.target,
                source: OperandView::Register(node.source),
            },
        ),
        Node::DivideConstant(node) => NodeView::Instruction(
            InstructionView {
                operation: Operation::Divide,
                target: node.target,
                source: OperandView::Constant(node.source@),
            },
        ),
        Node::CompareRegister(node) => NodeView::Instruction(
            InstructionView {
                operation: Operation::Compare,
                target: node.target,
                source: OperandView::Register(node.source),
            },
        ),
        Node::CompareConstant(node) => NodeView::Instruction(
            InstructionView {
                operation: Operation::Compare,
                target: node.target,
                source: OperandView::Constant(node.source@),
            },
        ),
        Node::Loop(node) => NodeView::Loop {
            counter: node.register,
            body: nodes_view(node.program.node_vec@),
        },
        Node::Call(node) => NodeView::Call {
            target: node.target,
            program_id: node.program_id,
            body: nodes_view(node.program.node_vec@),
        },
    }
}

/// What a sequence of nodes stands for.
pub open spec fn nodes_view(nodes: Seq<Node>) -> Seq<NodeView>
    decreases nodes, 1nat,
{
    Seq::new(
        nodes.len(),
        |i: int|
            if 0 <= i < nodes.len() {
                node_view(nodes[i])
            } else {
                NodeView::Loop { counter: RegisterIndex(0), body: Seq::empty() }
            },
    )
}

impl View for Node {
    type V = NodeView;

    open spec fn view(&self) -> NodeView {
        node_view(*self)
    }
}

impl Clone for Node {
    fn clone(&self) -> (r: Self)
        ensures
            r@ == self@,
        decreases self, 0nat,
    {
        match self {
            Node::MoveRegister(node) => Node::MoveRegister(
                NodeMoveRegister::new(node.target, node.source),
            ),
            Node::MoveConstant(node) => Node::MoveConstant(
                NodeMoveConstant::new(node.target, node.source.clone()),
            ),
            Node::ArithmeticRegister(node) => Node::ArithmeticRegister(
                NodeArithmeticRegister::new(node.operation, node.target, node.source),
            ),
            Node::ArithmeticConstant(node) => Node::ArithmeticConstant(
                NodeArithmeticConstant::new(node.operation, node.target, node.source.clone()),
            ),
            Node::DivideRegister(node) => Node::DivideRegister(
                NodeDivideRegister::new(node.target, node.source),
            ),
            Node::DivideConstant(node) => Node::DivideConstant(
                NodeDivideConstant::new(node.target, node.source.clone()),
            ),
            Node::CompareRegister(node) => Node::CompareRegister(
                NodeCompareRegister::new(node.target, node.source),
            ),
            Node::CompareConstant(node) => Node::CompareConstant(
                NodeCompareConstant::new(node.target, node.source.clone()),
            ),
            Node::Loop(node) => Node::Loop(
                NodeLoopRegister::new(node.register, node.program.clone()),
            ),
            Node::Call(node) => Node::Call(
                NodeCall::new(node.target, node.program_id, node.program.clone()),
            ),
        }
    }
}

/// The machine that a state and a cache stand for.
pub open spec fn machine_of(state: ProgramState, cache: ProgramCache) -> Machine {
    Machine { registers: state@.registers, step_count: state@.step_count, cache: cache@ }
}

impl Node {
    /// The node as program text.
    pub fn formatted_instruction(&self) -> (r: String)
        ensures
            r@ == node_text(self@),
        decreases self, 0nat,
    {
        match self {
            Node::MoveRegister(node) => node.formatted_instruction(),
            Node::MoveConstant(node) => node.formatted_instruction(),
            Node::ArithmeticRegister(node) => node.formatted_instruction(),
            Node::ArithmeticConstant(node) => node.formatted_instruction(),
            Node::DivideRegister(node) => node.formatted_instruction(),
            Node::DivideConstant(node) => node.formatted_instruction(),
            Node::CompareRegister(node) => node.formatted_instruction(),
            Node::CompareConstant(node) => node.formatted_instruction(),
            Node::Loop(node) => node.formatted_instruction(),
            Node::Call(node) => node.formatted_instruction(),
        }
    }

    /// Runs the node on `state`. The step that the node itself costs is not
    /// counted here but by the program that runs it.
    pub fn eval(&self, state: &mut ProgramState, cache: &mut ProgramCache, step_limit: u64) -> (r:
        Result<(), EvalError>)
        ensures
            (machine_of(*final(state), *final(cache)), r) == node_outcome(
                self@,
                machine_of(*old(state), *old(cache)),
                step_limit,
            ),
        decreases self, 0nat,
    {
        match self {
            Node::MoveRegister(node) => node.eval(state, cache),
            Node::MoveConstant(node) => node.eval(state, cache),
            Node::ArithmeticRegister(node) => node.eval(state, cache),
            Node::ArithmeticConstant(node) => node.eval(state, cache),
            Node::DivideRegister(node) => node.eval(state, cache),
            Node::DivideConstant(node) => node.eval(state, cache),
            Node::CompareRegister(node) => node.eval(state, cache),
            Node::CompareConstant(node) => node.eval(state, cache),
            Node::Loop(node) => node.eval(state, cache, step_limit),
            Node::Call(node) => node.eval(state, cache, step_limit),
        }
    }

    /// Appends the registers that the node names.
    pub fn accumulate_register_indexes(&self, register_vec: &mut Vec<RegisterIndex>)
        ensures
            final(register_vec)@ == old(register_vec)@ + node_registers(self@),
        decreases self, 0nat,
    {
        match self {
            Node::MoveRegister(node) => node.accumulate_register_indexes(register_vec),
            Node::MoveConstant(node) => node.accumulate_register_indexes(register_vec),
            Node::ArithmeticRegister(node) => node.accumulate_register_indexes(register_vec),
            Node::ArithmeticConstant(node) => node.accumulate_register_indexes(register_vec),
            Node::DivideRegister(node) => node.accumulate_register_indexes(register_vec),
            Node::DivideConstant(node) => node.accumulate_register_indexes(register_vec),
            Node::CompareRegister(node) => node.accumulate_register_indexes(register_vec),
            Node::CompareConstant(node) => node.accumulate_register_indexes(register_vec),
            Node::Loop(node) => node.accumulate_register_indexes(register_vec),
            Node::Call(node) => node.accumulate_register_indexes(register_vec),
        }
        assert(register_vec@ =~= old(register_vec)@ + node_registers(self@));
    }

    /// Carries the set of live registers across the node.
    pub fn live_register_indexes(&self, register_set: &mut HashSet<u8>)
        ensures
            final(register_set)@ == node_live_after(self@, old(register_set)@),
    {
        match self {
            Node::MoveRegister(node) => node.live_register_indexes(register_set),
            Node::MoveConstant(node) => node.live_register_indexes(register_set),
            Node::ArithmeticRegister(node) => node.live_register_indexes(register_set),
            Node::ArithmeticConstant(node) => node.live_register_indexes(register_set),
            Node::DivideRegister(node) => node.live_register_indexes(register_set),
            Node::DivideConstant(node) => node.live_register_indexes(register_set),
            Node::CompareRegister(node) => node.live_register_indexes(register_set),
            Node::CompareConstant(node) => node.live_register_indexes(register_set),
            Node::Loop(node) => node.live_register_indexes(register_set),
            Node::Call(node) => node.live_register_indexes(register_set),
        }
    }
}

} // verus!
