use loda_rust::node::Node;
use loda_rust::node_arithmetic::{
    perform_arithmetic, ArithmeticOperation, NodeArithmeticConstant, NodeArithmeticRegister,
};
use loda_rust::node_compare::{perform_compare, NodeCompareConstant, NodeCompareRegister};
use loda_rust::node_divide::{NodeDivideConstant, NodeDivideRegister};
use loda_rust::node_move::{NodeMoveConstant, NodeMoveRegister};
use loda_rust::program::Program;
use loda_rust::program_cache::ProgramCache;
use loda_rust::program_state::{EvalError, ProgramState};
use loda_rust::register_value::{clone_values, same_values, RegisterIndex, RegisterValue};
use std::collections::HashSet;

fn value(n: i64) -> RegisterValue {
    RegisterValue::from_i64(n)
}

fn sample_program() -> Program {
    // $1 = $0; $1 *= $1; $1 += 3; $0 = $1; $0 /= 2
    Program::new(vec![
        Node::MoveRegister(NodeMoveRegister::new(RegisterIndex(1), RegisterIndex(0))),
        Node::ArithmeticRegister(NodeArithmeticRegister::new(
            ArithmeticOperation::Multiply,
            RegisterIndex(1),
            RegisterIndex(1),
        )),
        Node::ArithmeticConstant(NodeArithmeticConstant::new(
            ArithmeticOperation::Add,
            RegisterIndex(1),
            value(3),
        )),
        Node::MoveRegister(NodeMoveRegister::new(RegisterIndex(0), RegisterIndex(1))),
        Node::DivideConstant(NodeDivideConstant::new(RegisterIndex(0), value(2))),
    ])
}

#[test]
fn program_computes_terms() {
    let program = sample_program();
    assert_eq!(program.len(), 5);
    assert_eq!(program.compute(&value(5), 100).map(|v| v.to_string()), Ok("14".to_string()));
    assert_eq!(program.compute(&value(-4), 100).map(|v| v.to_string()), Ok("9".to_string()));
    let terms = program.compute_terms(0, 5, 100).expect("no fault");
    let texts: Vec<String> = terms.iter().map(|v| v.to_string()).collect();
    assert_eq!(texts, vec!["1", "2", "3", "6", "9"]);
    let terms = program.compute_terms(3, 5, 100).expect("no fault");
    let texts: Vec<String> = terms.iter().map(|v| v.to_string()).collect();
    assert_eq!(texts, vec!["6", "9"]);
    assert_eq!(program.compute_terms(4, 2, 100).expect("no fault").len(), 0);
}

#[test]
fn program_text_has_one_instruction_per_line() {
    let program = sample_program();
    assert_eq!(
        program.to_string(),
        "mov $1,$0\nmul $1,$1\nadd $1,3\nmov $0,$1\ndiv $0,2\n"
    );
    assert_eq!(program.clone().to_string(), program.to_string());
    assert_eq!(Program::new(vec![]).to_string(), "");
    let subtract = Node::ArithmeticConstant(NodeArithmeticConstant::new(
        ArithmeticOperation::Subtract,
        RegisterIndex(7),
        value(-12),
    ));
    assert_eq!(subtract.formatted_instruction(), "sub $7,-12");
    assert_eq!(
        Node::MoveConstant(NodeMoveConstant::new(RegisterIndex(2), value(0))).formatted_instruction(),
        "mov $2,0"
    );
    assert_eq!(
        Node::DivideRegister(NodeDivideRegister::new(RegisterIndex(2), RegisterIndex(3)))
            .formatted_instruction(),
        "div $2,$3"
    );
}

#[test]
fn program_stops_at_the_step_limit() {
    let program = sample_program();
    assert_eq!(program.compute(&value(5), 4).map(|v| v.to_string()), Err(EvalError::StepLimitExceeded));
    assert_eq!(program.compute(&value(5), 5).map(|v| v.to_string()), Ok("14".to_string()));
    let mut state = ProgramState::new();
    let mut cache = ProgramCache::new();
    state.set_register_value(RegisterIndex(0), value(5));
    assert_eq!(program.run(&mut state, &mut cache, 3), Err(EvalError::StepLimitExceeded));
    assert_eq!(state.step_count(), 3);
    assert_eq!(state.get_register_value(&RegisterIndex(1)).to_string(), "28");
    assert_eq!(state.get_register_value(&RegisterIndex(0)).to_string(), "5");
    assert_eq!(Program::new(vec![]).compute(&value(5), 0).map(|v| v.to_string()), Ok("5".to_string()));
}

#[test]
fn program_stops_at_the_first_fault() {
    let program = Program::new(vec![
        Node::ArithmeticConstant(NodeArithmeticConstant::new(
            ArithmeticOperation::Add,
            RegisterIndex(0),
            value(0x7fffffff),
        )),
        Node::ArithmeticConstant(NodeArithmeticConstant::new(
            ArithmeticOperation::Multiply,
            RegisterIndex(0),
            value(2),
        )),
        Node::MoveConstant(NodeMoveConstant::new(RegisterIndex(0), value(1))),
    ]);
    let mut state = ProgramState::new();
    let mut cache = ProgramCache::new();
    state.set_register_value(RegisterIndex(0), value(1));
    assert_eq!(program.run(&mut state, &mut cache, 100), Err(EvalError::MultiplyOutOfRange));
    assert_eq!(state.step_count(), 2);
    assert_eq!(state.get_register_value(&RegisterIndex(0)).to_string(), "2147483648");
    assert_eq!(program.compute(&value(0), 100).map(|v| v.to_string()), Ok("1".to_string()));
    assert_eq!(
        program.compute_terms(0, 3, 100).map(|v| v.len()),
        Err(EvalError::MultiplyOutOfRange)
    );
    let divide = Program::new(vec![Node::DivideRegister(NodeDivideRegister::new(
        RegisterIndex(1),
        RegisterIndex(0),
    ))]);
    assert_eq!(divide.compute(&value(0), 100).map(|v| v.to_string()), Err(EvalError::DivisionByZero));
    assert_eq!(divide.compute(&value(3), 100).map(|v| v.to_string()), Ok("3".to_string()));
}

#[test]
fn arithmetic_validates_operands_then_computes() {
    let text = |r: Result<RegisterValue, EvalError>| r.map(|v| v.to_string());
    assert_eq!(
        text(perform_arithmetic(ArithmeticOperation::Add, &value(0x7fffffff), &value(0x7fffffff))),
        Ok("4294967294".to_string())
    );
    assert_eq!(
        text(perform_arithmetic(ArithmeticOperation::Subtract, &value(-0x7fffffff), &value(0x7fffffff))),
        Ok("-4294967294".to_string())
    );
    assert_eq!(
        text(perform_arithmetic(ArithmeticOperation::Multiply, &value(-0x7fffffff), &value(0x7fffffff))),
        Ok("-4611686014132420609".to_string())
    );
    assert_eq!(
        text(perform_arithmetic(ArithmeticOperation::Add, &value(0x80000000), &value(1))),
        Err(EvalError::AddOutOfRange)
    );
    assert_eq!(
        text(perform_arithmetic(ArithmeticOperation::Subtract, &value(1), &value(-0x80000000))),
        Err(EvalError::SubtractOutOfRange)
    );
    assert_eq!(
        text(perform_arithmetic(ArithmeticOperation::Multiply, &value(0), &value(0x80000000))),
        Err(EvalError::MultiplyOutOfRange)
    );
}

#[test]
fn program_dataflow() {
    let program = sample_program();
    let mut indexes: Vec<RegisterIndex> = vec![];
    program.accumulate_register_indexes(&mut indexes);
    let numbers: Vec<u8> = indexes.iter().map(|index| index.0).collect();
    assert_eq!(numbers, vec![1, 0, 1, 1, 1, 0, 1, 0]);

    let mut live: HashSet<u8> = HashSet::new();
    live.insert(0);
    program.live_register_indexes(&mut live);
    assert!(live.contains(&0) && live.contains(&1) && live.len() == 2);

    let overwrite = Program::new(vec![
        Node::MoveRegister(NodeMoveRegister::new(RegisterIndex(2), RegisterIndex(0))),
        Node::MoveConstant(NodeMoveConstant::new(RegisterIndex(0), value(7))),
        Node::ArithmeticRegister(NodeArithmeticRegister::new(
            ArithmeticOperation::Add,
            RegisterIndex(3),
            RegisterIndex(0),
        )),
        Node::MoveRegister(NodeMoveRegister::new(RegisterIndex(2), RegisterIndex(3))),
    ]);
    let mut live: HashSet<u8> = HashSet::new();
    live.insert(0);
    overwrite.live_register_indexes(&mut live);
    assert!(live.is_empty());
}

#[test]
fn vectors_of_values_compare_by_value() {
    let a = vec![value(1), value(-2), value(3)];
    let b = clone_values(&a);
    assert!(same_values(&a, &b));
    assert!(!same_values(&a, &vec![value(1), value(-2)]));
    assert!(!same_values(&a, &vec![value(1), value(2), value(3)]));
    assert!(same_values(&vec![], &vec![]));
    assert_eq!(RegisterValue::from_u64(u64::MAX).to_string(), "18446744073709551615");
}

#[test]
fn compare_gives_one_or_zero() {
    assert_eq!(perform_compare(&value(5), &value(5)).to_string(), "1");
    assert_eq!(perform_compare(&value(5), &value(-5)).to_string(), "0");
    assert_eq!(perform_compare(&value(0x100000000), &value(0x100000000)).to_string(), "1");

    let register = NodeCompareRegister::new(RegisterIndex(1), RegisterIndex(2));
    assert_eq!(register.formatted_instruction(), "cmp $1,$2");
    let mut state = ProgramState::new();
    let mut cache = ProgramCache::new();
    assert_eq!(register.eval(&mut state, &mut cache), Ok(()));
    assert_eq!(state.get_register_value(&RegisterIndex(1)).to_string(), "1");
    assert_eq!(register.eval(&mut state, &mut cache), Ok(()));
    assert_eq!(state.get_register_value(&RegisterIndex(1)).to_string(), "0");
    assert_eq!(state.get_register_value(&RegisterIndex(2)).to_string(), "0");

    let constant = NodeCompareConstant::new(RegisterIndex(1), value(7));
    assert_eq!(constant.formatted_instruction(), "cmp $1,7");
    assert_eq!(constant.eval(&mut state, &mut cache), Ok(()));
    assert_eq!(state.get_register_value(&RegisterIndex(1)).to_string(), "0");
    state.set_register_value(RegisterIndex(1), value(7));
    assert_eq!(constant.eval(&mut state, &mut cache), Ok(()));
    assert_eq!(state.get_register_value(&RegisterIndex(1)).to_string(), "1");

    // One for the input three, zero for every other input.
    let program = Program::new(vec![
        Node::CompareConstant(NodeCompareConstant::new(RegisterIndex(0), value(3))),
        Node::MoveRegister(NodeMoveRegister::new(RegisterIndex(1), RegisterIndex(0))),
        Node::CompareRegister(NodeCompareRegister::new(RegisterIndex(1), RegisterIndex(0))),
    ]);
    let terms = program.compute_terms(0, 5, 100).expect("no fault");
    let texts: Vec<String> = terms.iter().map(|v| v.to_string()).collect();
    assert_eq!(texts, vec!["0", "0", "0", "1", "0"]);
    assert_eq!(program.to_string(), "cmp $0,3\nmov $1,$0\ncmp $1,$0\n");
    assert_eq!(program.clone().to_string(), program.to_string());

    let mut indexes: Vec<RegisterIndex> = vec![];
    program.accumulate_register_indexes(&mut indexes);
    let numbers: Vec<u8> = indexes.iter().map(|index| index.0).collect();
    assert_eq!(numbers, vec![0, 1, 0, 1, 0]);
    let mut live: HashSet<u8> = HashSet::new();
    live.insert(0);
    program.live_register_indexes(&mut live);
    assert!(live.contains(&0) && live.contains(&1) && live.len() == 2);
}
