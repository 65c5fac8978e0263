use loda_rust::popular_program_container::{
    convert_records_to_clusters, PopularProgramContainer, ProgramPopularityError, Record,
};
use rand::rngs::StdRng;
use rand::SeedableRng;

#[test]
fn test_10001_convert_records_to_clusters_error_too_many_clusters() {
    let records: Vec<Record> = vec![
        // Cluster 9 is the highest allowed cluster.
        // Here using cluster 10 is beyond the max cluster and should trigger an error.
        Record::new(666, 10),
    ];
    let result = convert_records_to_clusters(records);
    assert_eq!(result.is_err(), true);
}

#[test]
fn test_10002_convert_records_to_clusters_success() {
    let records: Vec<Record> = vec![
        // 3 items in cluster 0
        Record::new(101, 0),
        Record::new(102, 0),
        Record::new(103, 0),
        // 1 item in cluster 4
        Record::new(301, 4),
        // 2 items in cluster 9
        Record::new(901, 9),
        Record::new(902, 9),
    ];
    let container: PopularProgramContainer = convert_records_to_clusters(records).unwrap();
    let cluster_program_ids: &Vec<Vec<u32>> = container.cluster_program_ids();
    assert_eq!(cluster_program_ids.len(), 10);
    assert_eq!(cluster_program_ids[0].len(), 3);
    assert_eq!(cluster_program_ids[4].len(), 1);
    assert_eq!(cluster_program_ids[9].len(), 2);
}

#[test]
fn convert_records_puts_every_id_in_its_cluster_in_order() {
    let records: Vec<Record> = vec![
        Record::new(5, 9),
        Record::new(4, 1),
        Record::new(6, 9),
        Record::new(7, 3),
        Record::new(4, 9),
    ];
    let container = convert_records_to_clusters(records).unwrap();
    let expected: Vec<Vec<u32>> = vec![
        vec![],
        vec![4],
        vec![],
        vec![7],
        vec![],
        vec![],
        vec![],
        vec![],
        vec![],
        vec![5, 6, 4],
    ];
    assert_eq!(container.cluster_program_ids(), &expected);
    assert_eq!(container.clone().cluster_program_ids(), &expected);
}

#[test]
fn convert_records_accepts_no_records_and_refuses_any_cluster_above_nine() {
    let container = convert_records_to_clusters(vec![]).unwrap();
    assert_eq!(container.cluster_program_ids(), &vec![Vec::<u32>::new(); 10]);
    let result = convert_records_to_clusters(vec![Record::new(1, 9), Record::new(2, 255)]);
    assert_eq!(result.err(), Some(ProgramPopularityError::PopularityClusterIdOutOfBounds));
    assert_eq!(
        ProgramPopularityError::PopularityClusterIdOutOfBounds.to_string(),
        "Cluster id is out of bounds"
    );
}

#[test]
fn cluster_weights_double_from_one_to_512() {
    let weights = PopularProgramContainer::cluster_weights();
    let expected: Vec<(usize, usize)> = vec![
        (0, 1),
        (1, 2),
        (2, 4),
        (3, 8),
        (4, 16),
        (5, 32),
        (6, 64),
        (7, 128),
        (8, 256),
        (9, 512),
    ];
    assert_eq!(weights, expected);
}

#[test]
fn choosing_from_an_empty_cluster_gives_nothing() {
    let container = convert_records_to_clusters(vec![Record::new(301, 4)]).unwrap();
    let mut rng = StdRng::seed_from_u64(1);
    assert_eq!(container.choose_most_popular(&mut rng), None);
    assert_eq!(container.choose_least_popular(&mut rng), None);
    assert_eq!(container.choose_from_cluster(&mut rng, 4), Some(301));
    for _ in 0..200 {
        let picked = container.choose_weighted_by_popularity(&mut rng);
        assert!(picked == None || picked == Some(301));
        let picked = container.choose_medium_popular(&mut rng);
        assert!(picked == None || picked == Some(301));
    }
    let empty = convert_records_to_clusters(vec![]).unwrap();
    for _ in 0..50 {
        assert_eq!(empty.choose_weighted_by_popularity(&mut rng), None);
        assert_eq!(empty.choose_medium_popular(&mut rng), None);
    }
}

#[test]
fn weighted_choice_follows_the_weights() {
    let mut records: Vec<Record> = vec![];
    for cluster in 0..10u8 {
        records.push(Record::new(cluster as u32, cluster));
    }
    let container = convert_records_to_clusters(records).unwrap();
    let mut rng = StdRng::seed_from_u64(42);
    let draws: usize = 102300;
    let mut counts = [0usize; 10];
    for _ in 0..draws {
        let id = container.choose_weighted_by_popularity(&mut rng).expect("every cluster has a member");
        counts[id as usize] += 1;
    }
    for cluster in 0..10usize {
        let expected = (draws / 1023) << cluster;
        let tolerance = expected / 4 + 40;
        let low = expected.saturating_sub(tolerance);
        let high = expected + tolerance;
        assert!(low <= counts[cluster] && counts[cluster] <= high, "cluster {} count {}", cluster, counts[cluster]);
    }
}

#[test]
fn same_seed_gives_same_choices() {
    let mut records: Vec<Record> = vec![];
    for id in 0..500u32 {
        records.push(Record::new(id, (id % 10) as u8));
    }
    let container = convert_records_to_clusters(records).unwrap();
    let mut first = StdRng::seed_from_u64(7);
    let mut second = StdRng::seed_from_u64(7);
    for _ in 0..100 {
        assert_eq!(
            container.choose_weighted_by_popularity(&mut first),
            container.choose_weighted_by_popularity(&mut second)
        );
        let medium = container.choose_medium_popular(&mut first);
        assert_eq!(medium, container.choose_medium_popular(&mut second));
        let cluster = medium.expect("clusters are not empty") % 10;
        assert!(1 <= cluster && cluster <= 7);
        assert_eq!(container.choose_most_popular(&mut first).map(|id| id % 10), Some(9));
        assert_eq!(container.choose_most_popular(&mut second).map(|id| id % 10), Some(9));
        assert_eq!(container.choose_least_popular(&mut first).map(|id| id % 10), Some(0));
        assert_eq!(container.choose_least_popular(&mut second).map(|id| id % 10), Some(0));
    }
}
