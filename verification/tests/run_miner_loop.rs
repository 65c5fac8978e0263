use loda_rust::funnel::{Funnel, FunnelState};
use loda_rust::genome::{Genome, GenomeItem, SourceType};
use loda_rust::genome_mutate_context::GenomeMutateContext;
use loda_rust::node::Operation;
use loda_rust::popular_program_container::convert_records_to_clusters;
use loda_rust::prevent_flooding::PreventFlooding;
use loda_rust::program_state::EvalError;
use loda_rust::register_value::RegisterValue;
use loda_rust::run_miner_loop::{evaluate_candidate, mine_round, RoundOutcome};
use loda_rust::terms_to_program_id::TermsToProgramIdSet;
use rand::rngs::StdRng;
use rand::SeedableRng;

fn values(terms: &[i64]) -> Vec<RegisterValue> {
    terms.iter().map(|term| RegisterValue::from_i64(*term)).collect()
}

/// Knows the sequence of halves as program 42 and the squares as 290 and 291.
fn funnel() -> Funnel {
    let mut index = TermsToProgramIdSet::new();
    index.insert(&values(&[0, 0, 1, 1, 2, 2]), 42);
    index.insert(&values(&[0, 1, 4, 9, 16, 25]), 290);
    index.insert(&values(&[0, 1, 4, 9, 16, 25]), 291);
    index.insert(&values(&[0, 0, 1, 1, 7, 7]), 43);
    Funnel::new(3, 6, RegisterValue::from_i64(-999), index)
}

fn genome(items: Vec<GenomeItem>) -> Genome {
    Genome { register_count: 2, items }
}

#[test]
fn confirmed_candidate_is_saved_once_within_the_window() {
    let funnel = funnel();
    let mut tracker = PreventFlooding::new(1000);
    let halves = genome(vec![GenomeItem::new(Operation::Divide, 0, SourceType::Constant, 2)]);
    let expected = RoundOutcome::Persist {
        program: "div $0,2\n".to_string(),
        program_ids: vec![42],
        term_count: 6,
    };
    assert_eq!(evaluate_candidate(&halves, &funnel, &mut tracker, 5000, 100), expected);
    assert_eq!(
        evaluate_candidate(&halves, &funnel, &mut tracker, 5999, 100),
        RoundOutcome::Suppressed { program_ids: vec![42] }
    );
    assert_eq!(evaluate_candidate(&halves, &funnel, &mut tracker, 6000, 100), expected);

    // Another program with the same leading terms has the same fingerprint.
    let same_terms = genome(vec![
        GenomeItem::new(Operation::Add, 1, SourceType::Constant, 2),
        GenomeItem::new(Operation::Divide, 0, SourceType::Register, 1),
    ]);
    assert_eq!(
        evaluate_candidate(&same_terms, &funnel, &mut tracker, 6500, 100),
        RoundOutcome::Suppressed { program_ids: vec![42] }
    );

    // A candidate with other terms is not held back.
    let squares = genome(vec![GenomeItem::new(Operation::Multiply, 0, SourceType::Register, 0)]);
    assert_eq!(
        evaluate_candidate(&squares, &funnel, &mut tracker, 6500, 100),
        RoundOutcome::Persist {
            program: "mul $0,$0\n".to_string(),
            program_ids: vec![290, 291],
            term_count: 6,
        }
    );
}

#[test]
fn candidates_without_a_match_leave_the_tracker_alone() {
    let funnel = funnel();
    let mut tracker = PreventFlooding::new(1000);
    let identity = Genome::identity(2);
    assert_eq!(
        evaluate_candidate(&identity, &funnel, &mut tracker, 1, 100),
        RoundOutcome::NoMatch(FunnelState::Rejected)
    );
    // Agrees with program 43 on three terms, with nothing on six.
    let mut index = TermsToProgramIdSet::new();
    index.insert(&values(&[0, 0, 1, 1, 7, 7]), 43);
    let narrow = Funnel::new(3, 6, RegisterValue::from_i64(-999), index);
    let halves = genome(vec![GenomeItem::new(Operation::Divide, 0, SourceType::Constant, 2)]);
    assert_eq!(
        evaluate_candidate(&halves, &narrow, &mut tracker, 2, 100),
        RoundOutcome::NoMatch(FunnelState::Discarded)
    );
    let failing = genome(vec![GenomeItem::new(Operation::Divide, 0, SourceType::Register, 0)]);
    assert_eq!(
        evaluate_candidate(&failing, &funnel, &mut tracker, 3, 100),
        RoundOutcome::Failed(EvalError::DivisionByZero)
    );
    assert_eq!(
        evaluate_candidate(&halves, &funnel, &mut tracker, 4, 0),
        RoundOutcome::Failed(EvalError::StepLimitExceeded)
    );
    let invalid = Genome {
        register_count: 1000,
        items: vec![GenomeItem::new(Operation::Move, 0, SourceType::Register, 300)],
    };
    assert_eq!(evaluate_candidate(&invalid, &funnel, &mut tracker, 5, 100), RoundOutcome::Invalid);
    // Nothing was submitted so far.
    assert!(tracker.is_accepted(&values(&[0, 0, 1]), 6));
    assert!(tracker.is_accepted(&values(&[0, 1, 2]), 6));
}

#[test]
fn rounds_mutate_then_evaluate() {
    let funnel = funnel();
    let context = GenomeMutateContext::new(convert_records_to_clusters(vec![]).unwrap());
    let mut tracker = PreventFlooding::new(1000);
    let mut rng = StdRng::seed_from_u64(17);
    let mut genome = Genome::identity(2);
    let mut not_mutated = 0;
    for round in 0..300u64 {
        let before = genome.clone();
        match mine_round(&mut genome, &mut rng, &context, &funnel, &mut tracker, round, 100) {
            RoundOutcome::NotMutated => {
                not_mutated += 1;
                assert_eq!(genome, before);
            }
            RoundOutcome::Persist { program, program_ids, term_count } => {
                assert_ne!(genome, before);
                assert_eq!(program, genome.to_program().expect("valid").to_string());
                assert!(!program_ids.is_empty());
                assert_eq!(term_count, 6);
            }
            _ => {
                assert_ne!(genome, before);
                assert!(genome.is_valid());
            }
        }
    }
    assert!(not_mutated < 30);

    for seed in 0..50u64 {
        let mut rng = StdRng::seed_from_u64(seed);
        let mut fresh = Genome::new(2);
        let outcome = mine_round(&mut fresh, &mut rng, &context, &funnel, &mut tracker, 1000, 100);
        assert_ne!(outcome, RoundOutcome::NotMutated);
        assert_eq!(fresh.items.len(), 1);
    }

    let mut stuck = Genome::new(0);
    assert_eq!(
        mine_round(&mut stuck, &mut rng, &context, &funnel, &mut tracker, 1, 100),
        RoundOutcome::NotMutated
    );
}
