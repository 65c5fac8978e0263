use loda_rust::funnel::{terms_match_up_to, Funnel, FunnelConfig, FunnelState};
use loda_rust::genome::{Genome, GenomeItem, Mutation, SourceType};
use loda_rust::node::{Node, Operation};
use loda_rust::node_arithmetic::{ArithmeticOperation, NodeArithmeticConstant};
use loda_rust::node_divide::NodeDivideRegister;
use loda_rust::program::Program;
use loda_rust::program_state::EvalError;
use loda_rust::register_value::{RegisterIndex, RegisterValue};
use loda_rust::terms_to_program_id::TermsToProgramIdSet;

const WILDCARD: i64 = -999;

fn values(terms: &[i64]) -> Vec<RegisterValue> {
    terms.iter().map(|term| RegisterValue::from_i64(*term)).collect()
}

fn funnel_of(minimum: usize, count: usize, sequences: &[(u32, &[i64])]) -> Funnel {
    let mut index = TermsToProgramIdSet::new();
    for (program_id, terms) in sequences {
        index.insert(&values(terms), *program_id);
    }
    Funnel::new(minimum, count, RegisterValue::from_i64(WILDCARD), index)
}

#[test]
fn end_to_end_divide_by_two_is_confirmed() {
    let mut genome = Genome::identity(1);
    assert_eq!(genome.to_program().expect("valid").to_string(), "mov $0,$0\n");
    let mutation = Mutation::ReplaceItem {
        index: 0,
        item: GenomeItem::new(Operation::Divide, 0, SourceType::Constant, 2),
    };
    assert!(genome.apply(&mutation));
    let program = genome.to_program().expect("valid");
    assert_eq!(program.to_string(), "div $0,2\n");

    let mut outputs: Vec<RegisterValue> = vec![];
    for input in [10i64, 9, -10] {
        outputs.push(program.compute(&RegisterValue::from_i64(input), 100).expect("no fault"));
    }
    let texts: Vec<String> = outputs.iter().map(|v| v.to_string()).collect();
    assert_eq!(texts, vec!["5", "4", "-5"]);

    let funnel = funnel_of(2, 3, &[(42, &[5, 4, -5])]);
    let result = funnel.check_terms(&outputs);
    assert_eq!(result.state, FunnelState::Confirmed);
    assert_eq!(result.program_ids, vec![42]);
    assert_eq!(result.term_count, 3);

    let mut index = TermsToProgramIdSet::new();
    let wildcard = RegisterValue::from_i64(WILDCARD);
    assert!(index.insert_sequence(42, &values(&[5, 4]), 2, 3, &wildcard));
    let funnel = Funnel::new(2, 3, RegisterValue::from_i64(WILDCARD), index);
    assert_eq!(funnel.terms_to_program_id.entries[0].terms[2].to_string(), "-999");
    let result = funnel.check_terms(&outputs);
    assert_eq!(result.state, FunnelState::Confirmed);
    assert_eq!(result.program_ids, vec![42]);
}

#[test]
fn funnel_states() {
    let funnel = funnel_of(
        2,
        4,
        &[(1, &[1, 2, 3, 4]), (2, &[1, 2, 3, 5]), (3, &[9, 9, 9, 9]), (4, &[1, 2, WILDCARD, 4])],
    );
    let candidate = values(&[1, 2, 3, 4]);
    assert_eq!(funnel.check_minimum(&values(&[1, 2])), FunnelState::Promoted);
    assert_eq!(funnel.check_minimum(&values(&[1, 3])), FunnelState::Rejected);
    assert_eq!(funnel.check_minimum(&values(&[1])), FunnelState::Rejected);
    assert_eq!(funnel.check_pair(0, &candidate), Some(FunnelState::Confirmed));
    assert_eq!(funnel.check_pair(1, &candidate), Some(FunnelState::Discarded));
    assert_eq!(funnel.check_pair(2, &candidate), Some(FunnelState::Rejected));
    assert_eq!(funnel.check_pair(3, &candidate), Some(FunnelState::Confirmed));
    assert_eq!(funnel.check_pair(4, &candidate), None);

    let result = funnel.check_terms(&candidate);
    assert_eq!(result.state, FunnelState::Confirmed);
    assert_eq!(result.program_ids, vec![1, 4]);
    assert_eq!(result.term_count, 4);

    let result = funnel.check_terms(&values(&[1, 2, 7, 7]));
    assert_eq!(result.state, FunnelState::Discarded);
    assert_eq!(result.program_ids, Vec::<u32>::new());

    let result = funnel.check_terms(&values(&[2, 2, 3, 4]));
    assert_eq!(result.state, FunnelState::Rejected);
    assert_eq!(result.program_ids, Vec::<u32>::new());

    let result = funnel.check_terms(&values(&[1, 2, 3]));
    assert_eq!(result.state, FunnelState::Discarded);

    let empty = funnel_of(2, 4, &[]);
    assert_eq!(empty.check_terms(&candidate).state, FunnelState::Rejected);
}

#[test]
fn funnel_reports_every_program_of_every_confirmed_sequence() {
    let mut index = TermsToProgramIdSet::new();
    index.insert(&values(&[0, 1, 2]), 10);
    index.insert(&values(&[0, 1, WILDCARD]), 20);
    index.insert(&values(&[0, 1, 2]), 11);
    index.insert(&values(&[0, 1, 2]), 10);
    assert_eq!(index.len(), 2);
    assert_eq!(index.find(&values(&[0, 1, 2])), Some(0));
    assert_eq!(index.find(&values(&[0, 1, WILDCARD])), Some(1));
    assert_eq!(index.find(&values(&[0, 1])), None);
    let funnel = Funnel::new(1, 3, RegisterValue::from_i64(WILDCARD), index);
    let result = funnel.check_terms(&values(&[0, 1, 2]));
    assert_eq!(result.state, FunnelState::Confirmed);
    assert_eq!(result.program_ids, vec![10, 11, 20]);
}

#[test]
fn wildcard_matches_any_term_at_its_position() {
    let wildcard = RegisterValue::from_i64(WILDCARD);
    let reference = values(&[5, WILDCARD, 7]);
    for middle in [-1000000i64, -999, 0, 6, 0x7fffffffffff] {
        assert!(terms_match_up_to(&reference, &values(&[5, middle, 7]), 3, &wildcard));
        assert!(!terms_match_up_to(&reference, &values(&[5, middle, 8]), 3, &wildcard));
        assert!(terms_match_up_to(&reference, &values(&[5, middle, 8]), 2, &wildcard));
    }
    assert!(!terms_match_up_to(&reference, &values(&[WILDCARD, 6, 7]), 3, &wildcard));
    assert!(terms_match_up_to(&reference, &values(&[]), 0, &wildcard));
    assert!(!terms_match_up_to(&reference, &values(&[5, 6, 7, 8]), 4, &wildcard));
}

#[test]
fn sequences_are_filed_under_padded_keys() {
    let wildcard = RegisterValue::from_i64(WILDCARD);
    let mut index = TermsToProgramIdSet::new();
    assert!(!index.insert_sequence(1, &values(&[1]), 2, 4, &wildcard));
    assert_eq!(index.len(), 0);
    assert!(index.insert_sequence(2, &values(&[1, 2]), 2, 4, &wildcard));
    assert!(index.insert_sequence(3, &values(&[1, 2, 3, 4, 5, 6]), 2, 4, &wildcard));
    assert!(index.insert_sequence(4, &values(&[1, 2, WILDCARD]), 2, 4, &wildcard));
    assert_eq!(index.len(), 2);
    let keys: Vec<Vec<String>> = index
        .entries
        .iter()
        .map(|entry| entry.terms.iter().map(|term| term.to_string()).collect())
        .collect();
    assert_eq!(keys, vec![vec!["1", "2", "-999", "-999"], vec!["1", "2", "3", "4"]]);
    assert_eq!(index.entries[0].program_ids, vec![2, 4]);
    assert_eq!(index.entries[1].program_ids, vec![3]);
}

#[test]
fn funnel_runs_a_program_only_as_far_as_needed() {
    // term n = 100 / (5 - n): faults at n = 5.
    let program = Program::new(vec![
        Node::ArithmeticConstant(NodeArithmeticConstant::new(
            ArithmeticOperation::Multiply,
            RegisterIndex(0),
            RegisterValue::from_i64(-1),
        )),
        Node::ArithmeticConstant(NodeArithmeticConstant::new(
            ArithmeticOperation::Add,
            RegisterIndex(0),
            RegisterValue::from_i64(5),
        )),
        Node::ArithmeticConstant(NodeArithmeticConstant::new(
            ArithmeticOperation::Add,
            RegisterIndex(1),
            RegisterValue::from_i64(100),
        )),
        Node::DivideRegister(NodeDivideRegister::new(RegisterIndex(1), RegisterIndex(0))),
        Node::ArithmeticConstant(NodeArithmeticConstant::new(
            ArithmeticOperation::Multiply,
            RegisterIndex(0),
            RegisterValue::from_i64(0),
        )),
        Node::ArithmeticRegister(loda_rust::node_arithmetic::NodeArithmeticRegister::new(
            ArithmeticOperation::Add,
            RegisterIndex(0),
            RegisterIndex(1),
        )),
    ]);
    let texts: Vec<String> =
        program.compute_terms(0, 5, 100).expect("no fault").iter().map(|v| v.to_string()).collect();
    assert_eq!(texts, vec!["20", "25", "33", "50", "100"]);

    let confirmed = funnel_of(2, 5, &[(7, &[20, 25, 33, 50, 100])]);
    let result = confirmed.check_program(&program, 100).expect("no fault");
    assert_eq!(result.state, FunnelState::Confirmed);
    assert_eq!(result.program_ids, vec![7]);
    assert_eq!(result.term_count, 5);

    let discarded = funnel_of(2, 5, &[(7, &[20, 25, 33, 50, 101])]);
    let result = discarded.check_program(&program, 100).expect("no fault");
    assert_eq!(result.state, FunnelState::Discarded);
    assert_eq!(result.program_ids, Vec::<u32>::new());

    // No reference agrees with the leading terms: the fault at term 5 is never reached.
    let rejected = funnel_of(2, 8, &[(7, &[20, 26, 33, 50, 100, 0, 0, 0])]);
    let result = rejected.check_program(&program, 100).expect("rejected before the fault");
    assert_eq!(result.state, FunnelState::Rejected);
    assert_eq!(result.term_count, 8);

    // The leading terms agree, so the remaining terms are computed and the fault shows.
    let promoted = funnel_of(2, 8, &[(7, &[20, 25, 33, 50, 100, 0, 0, 0])]);
    assert_eq!(promoted.check_program(&program, 100), Err(EvalError::DivisionByZero));

    // A fault among the leading terms fails the candidate.
    let leading_fault = funnel_of(6, 8, &[(7, &[20, 25, 33, 50, 100, 0, 0, 0])]);
    assert_eq!(leading_fault.check_program(&program, 100), Err(EvalError::DivisionByZero));
    assert_eq!(confirmed.check_program(&program, 3), Err(EvalError::StepLimitExceeded));
}

#[test]
fn default_funnel_config() {
    assert_eq!(FunnelConfig::MINIMUM_NUMBER_OF_REQUIRED_TERMS, 10);
    assert_eq!(FunnelConfig::TERM_COUNT, 40);
    let funnel = Funnel::with_default_config(TermsToProgramIdSet::new());
    assert_eq!(funnel.minimum_term_count, 10);
    assert_eq!(funnel.term_count, 40);
    assert_eq!(funnel.wildcard.to_string(), FunnelConfig::WILDCARD_MAGIC_VALUE.to_string());
}
