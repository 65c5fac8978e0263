use loda_rust::popular_program_container::{ProgramPopularityError, Record};
use loda_rust::program_popularity_csv::{
    parse_unsigned, process_csv_data, process_csv_into_clusters, records_from_rows,
    ProcessCsvError,
};

fn rows(table: &[&[&str]]) -> Vec<Vec<String>> {
    table.iter().map(|row| row.iter().map(|field| field.to_string()).collect()).collect()
}

#[test]
fn test_10000_process_csv_data() {
    let data = "\
program id;popularity
4;1

5;9
6;8
7;3
";
    let mut input: &[u8] = data.as_bytes();
    let records: Vec<Record> = process_csv_data(&mut input).unwrap();
    let strings: Vec<String> = records
        .iter()
        .map(|record| format!("{} {}", record.program_id, record.popularity_cluster_id))
        .collect();
    let strings_joined: String = strings.join(",");
    assert_eq!(strings_joined, "4 1,5 9,6 8,7 3");
}

#[test]
fn columns_are_found_by_name() {
    let data = "note;popularity;program id\nx;9;45\n\"y;z\";0x0a;0x10\n;+3;+7";
    assert_eq!(
        process_csv_data(data.as_bytes()),
        Ok(vec![Record::new(45, 9), Record::new(16, 10), Record::new(7, 3)])
    );
    // The first of two columns of one name counts.
    let data = "program id;popularity;program id\n1;2;3\n";
    assert_eq!(process_csv_data(data.as_bytes()), Ok(vec![Record::new(1, 2)]));
}

#[test]
fn table_without_rows_has_no_records() {
    assert_eq!(process_csv_data(b""), Ok(vec![]));
    assert_eq!(process_csv_data(b"program id;popularity\n"), Ok(vec![]));
    assert_eq!(process_csv_data(b"whatever\n"), Ok(vec![]));
    assert_eq!(records_from_rows(&rows(&[])), Ok(vec![]));
    assert_eq!(records_from_rows(&rows(&[&["a"]])), Ok(vec![]));
}

#[test]
fn malformed_tables_are_refused() {
    assert_eq!(process_csv_data(b"program id;popular\n1;2\n"), Err(ProcessCsvError::MissingColumn));
    assert_eq!(process_csv_data(b"program;popularity\n1;2\n"), Err(ProcessCsvError::MissingColumn));
    assert_eq!(process_csv_data(b"program id,popularity\n1,2\n"), Err(ProcessCsvError::MissingColumn));
    // Rows of unequal length and text that is no UTF-8 are the reader's faults.
    assert_eq!(process_csv_data(b"program id;popularity\n1;2;3\n"), Err(ProcessCsvError::Csv));
    assert_eq!(process_csv_data(b"program id;popularity\n1;\xff\n"), Err(ProcessCsvError::Csv));
    assert_eq!(
        process_csv_data(b"program id;popularity\n1;2\n3;x\n5;6\n"),
        Err(ProcessCsvError::InvalidNumber(2))
    );
    assert_eq!(
        process_csv_data(b"program id;popularity\n-1;2\n3;x\n"),
        Err(ProcessCsvError::InvalidNumber(1))
    );
    assert_eq!(
        process_csv_data(b"program id;popularity\n4294967296;2\n"),
        Err(ProcessCsvError::InvalidNumber(1))
    );
    assert_eq!(
        process_csv_data(b"program id;popularity\n4294967295;256\n"),
        Err(ProcessCsvError::InvalidNumber(1))
    );
    assert_eq!(
        process_csv_data(b"program id;popularity\n4294967295;255\n"),
        Ok(vec![Record::new(4294967295, 255)])
    );
    assert_eq!(
        records_from_rows(&rows(&[&["program id", "popularity"], &["1", "2"], &["1"]])),
        Err(ProcessCsvError::InvalidNumber(2))
    );
    assert_eq!(ProcessCsvError::Csv.to_string(), "Cannot read the data as rows and fields");
    assert_eq!(ProcessCsvError::MissingColumn.to_string(), "A column is missing");
    assert_eq!(ProcessCsvError::InvalidNumber(3).to_string(), "A field holds no valid number");
    assert_eq!(
        ProcessCsvError::Popularity(ProgramPopularityError::PopularityClusterIdOutOfBounds)
            .to_string(),
        "Cluster id is out of bounds"
    );
}

#[test]
fn numbers_are_read_as_the_standard_library_reads_them() {
    let samples = [
        "", "0", "7", "007", "+7", "++7", "-7", "+", "0x", "0x+", "0xff", "0xFF", "0XFF", "ff",
        "0x+1f", "+0x1f", "12a", "4294967295", "4294967296", "99999999999999999999999", " 7",
        "7 ", "0x100000000", "0xffffffff", "1_000", "٣",
    ];
    for sample in samples {
        let expected: Option<u32> = match sample.strip_prefix("0x") {
            Some(digits) => u32::from_str_radix(digits, 16).ok(),
            None => sample.parse().ok(),
        };
        assert_eq!(parse_unsigned(sample, u32::MAX), expected, "{:?}", sample);
        let expected: Option<u32> = expected.filter(|value| *value <= 255);
        assert_eq!(parse_unsigned(sample, 255), expected, "{:?}", sample);
    }
    assert_eq!(parse_unsigned("0", 0), Some(0));
    assert_eq!(parse_unsigned("1", 0), None);
}

#[test]
fn table_becomes_clusters() {
    let data = "program id;popularity\n4;1\n5;9\n6;9\n7;3\n";
    let container = process_csv_into_clusters(data.as_bytes()).unwrap();
    let clusters = container.cluster_program_ids();
    assert_eq!(clusters.len(), 10);
    assert_eq!(clusters[1], vec![4]);
    assert_eq!(clusters[3], vec![7]);
    assert_eq!(clusters[9], vec![5, 6]);
    assert_eq!(clusters[0], Vec::<u32>::new());
    let data = "program id;popularity\n4;1\n5;10\n";
    assert_eq!(
        process_csv_into_clusters(data.as_bytes()).err(),
        Some(ProcessCsvError::Popularity(ProgramPopularityError::PopularityClusterIdOutOfBounds))
    );
    assert_eq!(
        process_csv_into_clusters(b"program id;popularity\n4;x\n").err(),
        Some(ProcessCsvError::InvalidNumber(1))
    );
}
