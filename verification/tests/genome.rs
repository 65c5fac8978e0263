use loda_rust::genome::{Genome, GenomeItem, Mutation, SourceType, MUTATE_ATTEMPT_CAP};
use loda_rust::genome_mutate_context::{
    choose_weighted_position, GenomeMutateContext, ProgramFragment,
};
use loda_rust::node::Operation;
use loda_rust::popular_program_container::{convert_records_to_clusters, Record};
use rand::rngs::StdRng;
use rand::SeedableRng;

fn sample_genome() -> Genome {
    Genome {
        register_count: 3,
        items: vec![
            GenomeItem::new(Operation::Move, 1, SourceType::Register, 0),
            GenomeItem::new(Operation::Multiply, 1, SourceType::Constant, 3),
            GenomeItem::new(Operation::Add, 0, SourceType::Register, 1),
        ],
    }
}

fn sample_context() -> GenomeMutateContext {
    let records = vec![Record::new(100, 9), Record::new(200, 9), Record::new(300, 0)];
    let mut context = GenomeMutateContext::new(convert_records_to_clusters(records).unwrap());
    context.operation_histogram = vec![
        (Operation::Move, 10),
        (Operation::Add, 40),
        (Operation::Subtract, 0),
        (Operation::Multiply, 20),
        (Operation::Divide, 5),
    ];
    context.operation_bigrams = vec![
        (Operation::Move, Operation::Add, 30),
        (Operation::Move, Operation::Compare, 10),
        (Operation::Add, Operation::Divide, 5),
        (Operation::Multiply, Operation::Move, 0),
    ];
    context.constant_histogram = vec![(1, 100), (2, 50), (-1, 10), (10, 0)];
    context.program_fragments = vec![
        ProgramFragment {
            program_id: 100,
            items: vec![GenomeItem::new(Operation::Subtract, 2, SourceType::Constant, 1)],
        },
        ProgramFragment {
            program_id: 200,
            items: vec![GenomeItem::new(Operation::Move, 9, SourceType::Constant, 1)],
        },
    ];
    context.deny_program_ids = vec![300];
    context
}

fn text(genome: &Genome) -> String {
    genome.to_program().expect("valid").to_string()
}

#[test]
fn genome_gives_the_program_of_its_enabled_genes() {
    let mut genome = sample_genome();
    assert!(genome.is_valid());
    assert_eq!(text(&genome), "mov $1,$0\nmul $1,3\nadd $0,$1\n");
    assert!(genome.apply(&Mutation::ToggleEnabled { index: 1 }));
    assert_eq!(text(&genome), "mov $1,$0\nadd $0,$1\n");
    assert!(genome.apply(&Mutation::ToggleEnabled { index: 1 }));
    assert_eq!(genome, sample_genome());
    assert_eq!(text(&Genome::new(4)), "");
    assert_eq!(text(&Genome::identity(1)), "mov $0,$0\n");
    let all = Genome {
        register_count: 256,
        items: vec![
            GenomeItem::new(Operation::Move, 255, SourceType::Constant, -7),
            GenomeItem::new(Operation::Add, 0, SourceType::Constant, 1),
            GenomeItem::new(Operation::Subtract, 0, SourceType::Register, 255),
            GenomeItem::new(Operation::Multiply, 0, SourceType::Register, 0),
            GenomeItem::new(Operation::Divide, 0, SourceType::Register, 1),
            GenomeItem::new(Operation::Divide, 0, SourceType::Constant, 2),
            GenomeItem::new(Operation::Subtract, 0, SourceType::Constant, 2),
            GenomeItem::new(Operation::Multiply, 0, SourceType::Constant, 2),
            GenomeItem::new(Operation::Add, 0, SourceType::Register, 2),
            GenomeItem::new(Operation::Compare, 0, SourceType::Register, 2),
            GenomeItem::new(Operation::Compare, 1, SourceType::Constant, 0),
        ],
    };
    assert_eq!(
        text(&all),
        "mov $255,-7\nadd $0,1\nsub $0,$255\nmul $0,$0\ndiv $0,$1\ndiv $0,2\nsub $0,2\nmul $0,2\nadd $0,$2\ncmp $0,$2\ncmp $1,0\n"
    );
    let too_wide = Genome {
        register_count: 1000,
        items: vec![GenomeItem::new(Operation::Move, 0, SourceType::Register, 256)],
    };
    assert!(too_wide.is_valid());
    assert!(too_wide.to_program().is_none());
}

#[test]
fn genes_become_instructions() {
    let gene = GenomeItem::new(Operation::Subtract, 3, SourceType::Register, 255);
    assert!(gene.is_valid(256));
    assert!(!gene.is_valid(255));
    assert!(!gene.is_valid(3));
    assert_eq!(gene.to_node().map(|node| node.formatted_instruction()), Some("sub $3,$255".to_string()));
    let out_of_reach = GenomeItem::new(Operation::Subtract, 3, SourceType::Register, 256);
    assert!(out_of_reach.is_valid(257));
    assert!(out_of_reach.to_node().is_none());
    let negative = GenomeItem::new(Operation::Subtract, 3, SourceType::Register, -1);
    assert!(!negative.is_valid(257));
    let constant = GenomeItem::new(Operation::Divide, 0, SourceType::Constant, -256);
    assert!(constant.is_valid(1));
    assert!(!constant.is_valid(0));
    assert_eq!(constant.to_node().map(|node| node.formatted_instruction()), Some("div $0,-256".to_string()));
}

#[test]
fn each_mutation_changes_what_it_names() {
    let mut genome = sample_genome();
    assert!(genome.apply(&Mutation::ReplaceOperation { index: 2, operation: Operation::Subtract }));
    assert_eq!(text(&genome), "mov $1,$0\nmul $1,3\nsub $0,$1\n");
    assert!(genome.apply(&Mutation::ReplaceSource {
        index: 0,
        source_type: SourceType::Constant,
        source_value: -4
    }));
    assert_eq!(text(&genome), "mov $1,-4\nmul $1,3\nsub $0,$1\n");
    assert!(genome.apply(&Mutation::ReplaceTarget { index: 1, target: 2 }));
    assert_eq!(text(&genome), "mov $1,-4\nmul $2,3\nsub $0,$1\n");
    assert!(genome.apply(&Mutation::Swap { first: 0, second: 2 }));
    assert_eq!(text(&genome), "sub $0,$1\nmul $2,3\nmov $1,-4\n");
    assert!(genome.apply(&Mutation::Delete { index: 1 }));
    assert_eq!(text(&genome), "sub $0,$1\nmov $1,-4\n");
    assert!(genome.apply(&Mutation::Insert {
        index: 2,
        item: GenomeItem::new(Operation::Divide, 0, SourceType::Constant, 2)
    }));
    assert_eq!(text(&genome), "sub $0,$1\nmov $1,-4\ndiv $0,2\n");
    assert!(genome.apply(&Mutation::Insert {
        index: 0,
        item: GenomeItem::new(Operation::Add, 2, SourceType::Register, 2)
    }));
    assert_eq!(text(&genome), "add $2,$2\nsub $0,$1\nmov $1,-4\ndiv $0,2\n");
    assert!(genome.apply(&Mutation::Splice {
        index: 1,
        fragment: vec![
            GenomeItem::new(Operation::Move, 0, SourceType::Constant, 1),
            GenomeItem::new(Operation::Move, 1, SourceType::Constant, 2),
        ]
    }));
    assert_eq!(
        text(&genome),
        "add $2,$2\nmov $0,1\nmov $1,2\nsub $0,$1\nmov $1,-4\ndiv $0,2\n"
    );
    assert!(genome.apply(&Mutation::ReplaceItem {
        index: 5,
        item: GenomeItem::new(Operation::Multiply, 1, SourceType::Register, 0)
    }));
    assert_eq!(
        text(&genome),
        "add $2,$2\nmov $0,1\nmov $1,2\nsub $0,$1\nmov $1,-4\nmul $1,$0\n"
    );
    assert_eq!(genome.register_count, 3);
    assert!(genome.is_valid());
}

#[test]
fn rejected_mutations_change_nothing() {
    let rejected = vec![
        // a position outside the genome
        Mutation::ReplaceOperation { index: 3, operation: Operation::Divide },
        Mutation::ReplaceSource { index: 3, source_type: SourceType::Constant, source_value: 1 },
        Mutation::ReplaceTarget { index: 3, target: 0 },
        Mutation::ReplaceItem {
            index: 3,
            item: GenomeItem::new(Operation::Move, 0, SourceType::Constant, 1),
        },
        Mutation::ToggleEnabled { index: 3 },
        Mutation::Insert {
            index: 4,
            item: GenomeItem::new(Operation::Move, 0, SourceType::Constant, 1),
        },
        Mutation::Delete { index: 3 },
        Mutation::Swap { first: 0, second: 3 },
        Mutation::Swap { first: 3, second: 0 },
        Mutation::Splice {
            index: 4,
            fragment: vec![GenomeItem::new(Operation::Move, 0, SourceType::Constant, 1)],
        },
        // a register at or beyond the declared register count
        Mutation::ReplaceTarget { index: 0, target: 3 },
        Mutation::ReplaceSource { index: 0, source_type: SourceType::Register, source_value: 3 },
        Mutation::ReplaceSource { index: 0, source_type: SourceType::Register, source_value: -1 },
        Mutation::ReplaceSource { index: 1, source_type: SourceType::Register, source_value: 3 },
        Mutation::Insert {
            index: 0,
            item: GenomeItem::new(Operation::Move, 3, SourceType::Constant, 1),
        },
        Mutation::Splice {
            index: 0,
            fragment: vec![
                GenomeItem::new(Operation::Move, 0, SourceType::Constant, 1),
                GenomeItem::new(Operation::Move, 0, SourceType::Register, 7),
            ],
        },
        // no change
        Mutation::ReplaceOperation { index: 0, operation: Operation::Move },
        Mutation::ReplaceSource { index: 1, source_type: SourceType::Constant, source_value: 3 },
        Mutation::ReplaceTarget { index: 2, target: 0 },
        Mutation::ReplaceItem {
            index: 1,
            item: GenomeItem::new(Operation::Multiply, 1, SourceType::Constant, 3),
        },
        Mutation::Swap { first: 1, second: 1 },
        Mutation::Splice { index: 2, fragment: vec![] },
    ];
    for mutation in rejected {
        let mut genome = sample_genome();
        assert!(!genome.apply(&mutation), "{:?}", mutation);
        assert_eq!(genome, sample_genome(), "{:?}", mutation);
    }
    let mut invalid = Genome {
        register_count: 1,
        items: vec![GenomeItem::new(Operation::Move, 1, SourceType::Constant, 0)],
    };
    assert!(!invalid.is_valid());
    assert!(!invalid.apply(&Mutation::ToggleEnabled { index: 0 }));
    assert!(invalid.apply(&Mutation::ReplaceTarget { index: 0, target: 0 }));
    assert!(invalid.is_valid());
}

#[test]
fn mutate_gives_a_valid_and_different_genome() {
    let context = sample_context();
    let mut rng = StdRng::seed_from_u64(3);
    let mut genome = sample_genome();
    let mut mutated = 0;
    for _ in 0..500 {
        let before = genome.clone();
        if genome.mutate(&mut rng, &context) {
            mutated += 1;
            assert_ne!(genome, before);
            assert!(genome.is_valid());
            assert!(genome.to_program().is_some());
            assert_eq!(genome.register_count, 3);
        } else {
            assert_eq!(genome, before);
        }
    }
    assert!(mutated > 400);
    assert_eq!(MUTATE_ATTEMPT_CAP, 20);
}

#[test]
fn mutate_is_deterministic_for_a_seed() {
    let context = sample_context();
    let mut first_rng = StdRng::seed_from_u64(11);
    let mut second_rng = StdRng::seed_from_u64(11);
    let mut first = sample_genome();
    let mut second = sample_genome();
    for _ in 0..200 {
        assert_eq!(
            first.mutate(&mut first_rng, &context),
            second.mutate(&mut second_rng, &context)
        );
        assert_eq!(first, second);
    }
    let mut other_rng = StdRng::seed_from_u64(12);
    let mut other = sample_genome();
    for _ in 0..200 {
        other.mutate(&mut other_rng, &context);
    }
    assert_ne!(first, other);
}

#[test]
fn mutate_gives_up_when_no_mutation_can_apply() {
    let context = sample_context();
    let mut rng = StdRng::seed_from_u64(5);
    // No register is declared, so no gene is valid and no mutation is accepted.
    let mut genome = Genome::new(0);
    for _ in 0..20 {
        assert!(!genome.mutate(&mut rng, &context));
        assert_eq!(genome, Genome::new(0));
    }
}

#[test]
fn genome_without_genes_always_gets_its_first_gene() {
    let context = sample_context();
    let empty_context = GenomeMutateContext::new(convert_records_to_clusters(vec![]).unwrap());
    for seed in 0..200u64 {
        let mut rng = StdRng::seed_from_u64(seed);
        let mut genome = Genome::new(3);
        assert!(genome.mutate(&mut rng, &context));
        assert_eq!(genome.items.len(), 1);
        assert!(genome.items[0].enabled);
        assert!(genome.items[0].is_valid(3));
        assert_ne!(genome.items[0].operation, Operation::Subtract);
        assert_eq!(genome.register_count, 3);

        // Without statistics the gene is a move, and a constant is one.
        let mut genome = Genome::new(1);
        assert!(genome.mutate(&mut rng, &empty_context));
        assert_eq!(genome.items.len(), 1);
        let gene = genome.items[0];
        assert!(gene.enabled && gene.target == 0 && gene.operation == Operation::Move);
        assert!(
            (gene.source_type == SourceType::Constant && gene.source_value == 1)
                || (gene.source_type == SourceType::Register && gene.source_value == 0)
        );

        let mut wide = Genome::new(u16::MAX);
        assert!(wide.mutate(&mut rng, &context));
        assert!(wide.to_program().is_some());
    }
}

#[test]
fn context_choices_follow_the_histograms() {
    let context = sample_context();
    let mut rng = StdRng::seed_from_u64(9);
    let mut adds = 0;
    let mut ones = 0;
    for _ in 0..3000 {
        let operation = context.choose_operation(&mut rng).expect("histogram counts something");
        assert_ne!(operation, Operation::Subtract);
        if operation == Operation::Add {
            adds += 1;
        }
        let constant = context.choose_constant(&mut rng).expect("histogram counts something");
        assert!(constant == 1 || constant == 2 || constant == -1);
        if constant == 1 {
            ones += 1;
        }
    }
    // 40 of 75 and 100 of 160
    assert!(1400 < adds && adds < 1800, "{}", adds);
    assert!(1700 < ones && ones < 2050, "{}", ones);

    let mut adds_after_move = 0;
    for _ in 0..2000 {
        let after_move =
            context.choose_operation_after(&mut rng, Operation::Move).expect("something follows");
        assert!(after_move == Operation::Add || after_move == Operation::Compare);
        if after_move == Operation::Add {
            adds_after_move += 1;
        }
        assert_eq!(context.choose_operation_after(&mut rng, Operation::Add), Some(Operation::Divide));
        assert_eq!(context.choose_operation_after(&mut rng, Operation::Multiply), None);
        assert_eq!(context.choose_operation_after(&mut rng, Operation::Divide), None);
    }
    // 30 of 40
    assert!(1400 < adds_after_move && adds_after_move < 1600, "{}", adds_after_move);

    assert_eq!(choose_weighted_position(&mut rng, &vec![]), None);
    assert_eq!(choose_weighted_position(&mut rng, &vec![0, 0]), None);
    assert_eq!(choose_weighted_position(&mut rng, &vec![0, 4, 0]), Some(1));
    assert_eq!(choose_weighted_position(&mut rng, &vec![usize::MAX, 1]), None);
    assert_eq!(choose_weighted_position(&mut rng, &vec![usize::MAX, 0]), Some(0));

    let empty = GenomeMutateContext::new(convert_records_to_clusters(vec![]).unwrap());
    assert_eq!(empty.choose_operation(&mut rng), None);
    assert_eq!(empty.choose_constant(&mut rng), None);
    assert_eq!(empty.choose_fragment(&mut rng), None);
}

#[test]
fn fragments_come_from_popular_programs_that_are_not_denied() {
    let mut context = sample_context();
    let mut rng = StdRng::seed_from_u64(2);
    assert!(context.is_denied(300));
    assert!(!context.is_denied(100));
    assert_eq!(context.fragment_of(200), Some(1));
    assert_eq!(context.fragment_of(300), None);
    let mut found = 0;
    for _ in 0..300 {
        match context.choose_fragment(&mut rng) {
            Some(items) => {
                found += 1;
                assert!(
                    items == context.program_fragments[0].items
                        || items == context.program_fragments[1].items
                );
            }
            None => {}
        }
    }
    // Only the most popular cluster holds programs that may be used: 512 of 1023.
    assert!(110 < found && found < 190, "{}", found);
    context.deny_program_ids = vec![100, 200, 300];
    for _ in 0..100 {
        assert_eq!(context.choose_fragment(&mut rng), None);
    }
}
