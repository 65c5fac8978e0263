//! Reads the popularity table: semicolon-delimited text with a header row,
//! a column `program id` and a column `popularity`.
//!
//! The `csv` crate splits the text into rows and fields. What the fields
//! mean is decided here.

use crate::popular_program_container::{
    cluster_members, clusters_in_bounds, convert_records_to_clusters, PopularProgramContainer,
    ProgramPopularityError, Record, NUMBER_OF_CLUSTERS,
};
use crate::text::{chars_equal, to_chars};
use vstd::prelude::*;
use vstd::string::StringExecFns;

verus! {

/// Makes `csv::Error` known to the verifier as an opaque type.
#[verifier::external_type_specification]
#[verifier::external_body]
pub struct ExCsvError(csv::Error);

/// What the `csv` reader makes of semicolon-delimited data when it treats no
/// row as header: the rows in order, each a list of fields. Nothing when the
/// reader refuses the data.
pub uninterp spec fn csv_rows(data: Seq<u8>) -> Option<Seq<Seq<Seq<char>>>>;

/// Calls `csv::Reader::records` on a reader built by `csv::ReaderBuilder`
/// with the semicolon as delimiter and without header row, and copies every
/// field of every record. The result is a function of the data alone.
#[verifier::external_body]
fn read_csv_rows(data: &[u8]) -> (r: Result<Vec<Vec<String>>, csv::Error>)
    ensures
        match r {
            Ok(rows) => csv_rows(data@) == Some(rows.deep_view()),
            Err(_) => csv_rows(data@) is None,
        },
{
    let mut reader = csv::ReaderBuilder::new().delimiter(b';').has_headers(false).from_reader(data);
    let mut rows: Vec<Vec<String>> = Vec::new();
    for result in reader.records() {
        let record = result?;
        rows.push(record.iter().map(|field| field.to_string()).collect());
    }
    Ok(rows)
}

/// Why a popularity table was refused.
#[derive(Clone, Copy, Debug, PartialEq, Eq, Structural)]
pub enum ProcessCsvError {
    /// The reader could not split the data into rows and fields.
    Csv,
    /// The header row lacks one of the two columns.
    MissingColumn,
    /// The row with this number, the header row counting as zero, holds no
    /// valid number in one of the two columns.
    InvalidNumber(usize),
    /// The table was read but names a cluster that does not exist.
    Popularity(ProgramPopularityError),
}

/// What the fault says in words.
pub open spec fn process_csv_error_text(error: ProcessCsvError) -> Seq<char> {
    match error {
        ProcessCsvError::Csv => "Cannot read the data as rows and fields"@,
        ProcessCsvError::MissingColumn => "A column is missing"@,
        ProcessCsvError::InvalidNumber(_) => "A field holds no valid number"@,
        ProcessCsvError::Popularity(_) => "Cluster id is out of bounds"@,
    }
}

impl ProcessCsvError {
    /// The fault in words.
    pub fn to_string(&self) -> (r: String)
        ensures
            r@ == process_csv_error_text(*self),
    {
        match self {
            ProcessCsvError::Csv => String::from_str("Cannot read the data as rows and fields"),
            ProcessCsvError::MissingColumn => String::from_str("A column is missing"),
            ProcessCsvError::InvalidNumber(_) => String::from_str("A field holds no valid number"),
            ProcessCsvError::Popularity(error) => error.to_string(),
        }
    }
}

/// The value of a digit in the given radix, if the character is one.
pub open spec fn digit_value(c: char, radix: nat) -> Option<nat> {
    let code = c as nat;
    if '0' as nat <= code <= '9' as nat {
        Some((code - '0' as nat) as nat)
    } else if radix == 16 && 'a' as nat <= code <= 'f' as nat {
        Some((code - 'a' as nat + 10) as nat)
    } else if radix == 16 && 'A' as nat <= code <= 'F' as nat {
        Some((code - 'A' as nat + 10) as nat)
    } else {
        None
    }
}

/// The number that a run of digits stands for, if all of them are digits.
/// The empty run stands for zero.
pub open spec fn digits_value(digits: Seq<char>, radix: nat) -> Option<nat>
    decreases digits.len(),
{
    if digits.len() == 0 {
        Some(0)
    } else {
        match (digits_value(digits.drop_last(), radix), digit_value(digits.last(), radix)) {
            (Some(front), Some(digit)) => Some(front * radix + digit),
            _ => None,
        }
    }
}

/// The number that a field stands for: decimal digits, or hexadecimal digits
/// behind `0x`, in either case with an optional plus sign before the digits
/// and at least one digit.
pub open spec fn unsigned_value(text: Seq<char>) -> Option<nat> {
    let hexadecimal = text.len() >= 2 && text[0] == '0' && text[1] == 'x';
    let radix: nat = if hexadecimal {
        16
    } else {
        10
    };
    let unprefixed = if hexadecimal {
        text.subrange(2, text.len() as int)
    } else {
        text
    };
    let digits = if unprefixed.len() >= 1 && unprefixed[0] == '+' {
        unprefixed.subrange(1, unprefixed.len() as int)
    } else {
        unprefixed
    };
    if digits.len() == 0 {
        None
    } else {
        digits_value(digits, radix)
    }
}

/// The number that a field stands for, if it is no more than `max`.
pub open spec fn bounded_value(text: Seq<char>, max: u64) -> Option<u64> {
    match unsigned_value(text) {
        Some(value) => if value <= max {
            Some(value as u64)
        } else {
            None
        },
        None => None,
    }
}

/// Position of the first field of the header that is `name`, or the number
/// of fields.
pub open spec fn column_of(header: Seq<Seq<char>>, name: Seq<char>, from: int) -> int
    decreases header.len() - from,
{
    if from < 0 || from >= header.len() {
        header.len() as int
    } else if header[from] == name {
        from
    } else {
        column_of(header, name, from + 1)
    }
}

/// The record that a row stands for, given the columns of the program id and
/// of the cluster id.
pub open spec fn record_of_row(row: Seq<Seq<char>>, id_column: int, cluster_column: int) -> Option<
    Record,
> {
    if 0 <= id_column < row.len() && 0 <= cluster_column < row.len() {
        match (
            bounded_value(row[id_column], u32::MAX as u64),
            bounded_value(row[cluster_column], u8::MAX as u64),
        ) {
            (Some(program_id), Some(cluster_id)) => Some(
                Record { program_id: program_id as u32, popularity_cluster_id: cluster_id as u8 },
            ),
            _ => None,
        }
    } else {
        None
    }
}

/// The records of the rows from row one up to row `to`, or the first fault
/// among them.
pub open spec fn records_up_to(
    rows: Seq<Seq<Seq<char>>>,
    to: int,
    id_column: int,
    cluster_column: int,
) -> Result<Seq<Record>, ProcessCsvError>
    decreases to,
{
    if to <= 1 {
        Ok(Seq::empty())
    } else {
        match records_up_to(rows, to - 1, id_column, cluster_column) {
            Err(e) => Err(e),
            Ok(records) => match record_of_row(rows[to - 1], id_column, cluster_column) {
                Some(record) => Ok(records.push(record)),
                None => Err(ProcessCsvError::InvalidNumber((to - 1) as usize)),
            },
        }
    }
}

/// The records that the rows of a table stand for.
///
/// Row zero is the header. A table without further rows has no records,
/// whatever its header is. Otherwise the header must have a field
/// `program id` and a field `popularity`; every further row gives one record
/// from the fields in these two columns.
pub open spec fn records_of_rows(rows: Seq<Seq<Seq<char>>>) -> Result<Seq<Record>, ProcessCsvError> {
    if rows.len() <= 1 {
        Ok(Seq::empty())
    } else {
        let id_column = column_of(rows[0], "program id"@, 0);
        let cluster_column = column_of(rows[0], "popularity"@, 0);
        if id_column >= rows[0].len() || cluster_column >= rows[0].len() {
            Err(ProcessCsvError::MissingColumn)
        } else {
            records_up_to(rows, rows.len() as int, id_column, cluster_column)
        }
    }
}

/// The records that data stands for.
pub open spec fn records_of_data(data: Seq<u8>) -> Result<Seq<Record>, ProcessCsvError> {
    match csv_rows(data) {
        Some(rows) => records_of_rows(rows),
        None => Err(ProcessCsvError::Csv),
    }
}

/// A run of digits stands for at least as much as any of its beginnings.
proof fn lemma_digits_value_grows(digits: Seq<char>, radix: nat, upto: int)
    requires
        0 <= upto <= digits.len(),
        radix >= 1,
        digits_value(digits, radix) is Some,
    ensures
        digits_value(digits.take(upto), radix) is Some,
        digits_value(digits.take(upto), radix)->0 <= digits_value(digits, radix)->0,
    decreases digits.len() - upto,
{
    if upto < digits.len() {
        lemma_digits_value_grows(digits, radix, upto + 1);
        assert(digits.take(upto + 1).drop_last() =~= digits.take(upto));
        let front = digits_value(digits.take(upto), radix)->0;
        assert(front <= front * radix) by (nonlinear_arith)
            requires
                radix >= 1,
        ;
    } else {
        assert(digits.take(upto) =~= digits);
    }
}

/// The first fault among the rows is the fault of the table.
proof fn lemma_records_fault_stays(
    rows: Seq<Seq<Seq<char>>>,
    at: int,
    to: int,
    id_column: int,
    cluster_column: int,
)
    requires
        at <= to,
        records_up_to(rows, at, id_column, cluster_column) is Err,
    ensures
        records_up_to(rows, to, id_column, cluster_column) == records_up_to(
            rows,
            at,
            id_column,
            cluster_column,
        ),
    decreases to - at,
{
    if at < to {
        lemma_records_fault_stays(rows, at, to - 1, id_column, cluster_column);
    }
}

/// The value of a digit in the given radix, if the character is one.
fn digit_of(c: char, hexadecimal: bool) -> (r: Option<u64>)
    ensures
        r matches Some(d) ==> digit_value(
            c,
            if hexadecimal {
                16
            } else {
                10
            },
        ) == Some(d as nat) && d < 16,
        r is None ==> digit_value(
            c,
            if hexadecimal {
                16
            } else {
                10
            },
        ) is None,
{
    let code: u32 = c as u32;
    if 0x30 <= code && code <= 0x39 {
        Some((code - 0x30) as u64)
    } else if hexadecimal && 0x61 <= code && code <= 0x66 {
        Some((code - 0x61 + 10) as u64)
    } else if hexadecimal && 0x41 <= code && code <= 0x46 {
        Some((code - 0x41 + 10) as u64)
    } else {
        None
    }
}

/// The number that a field stands for, if it is no more than `max`.
pub fn parse_unsigned(text: &str, max: u32) -> (r: Option<u32>)
    ensures
        match r {
            Some(value) => bounded_value(text@, max as u64) == Some(value as u64),
            None => bounded_value(text@, max as u64) is None,
        },
{
    let chars = to_chars(text);
    let hexadecimal: bool = chars.len() >= 2 && chars[0] == '0' && chars[1] == 'x';
    let mut start: usize = if hexadecimal {
        2
    } else {
        0
    };
    if start < chars.len() && chars[start] == '+' {
        start += 1;
    }
    if start >= chars.len() {
        return None;
    }
    let radix: u64 = if hexadecimal {
        16
    } else {
        10
    };
    let ghost digits = chars@.subrange(start as int, chars@.len() as int);
    proof {
        let unprefixed = if hexadecimal {
            text@.subrange(2, text@.len() as int)
        } else {
            text@
        };
        let behind_sign = if unprefixed.len() >= 1 && unprefixed[0] == '+' {
            unprefixed.subrange(1, unprefixed.len() as int)
        } else {
            unprefixed
        };
        assert(text@.subrange(0, text@.len() as int) =~= text@);
        assert(behind_sign =~= digits);
    }
    let mut value: u64 = 0;
    let mut i: usize = start;
    assert(digits.take(0) =~= Seq::<char>::empty());
    while i < chars.len()
        invariant
            start <= i <= chars@.len(),
            digits == chars@.subrange(start as int, chars@.len() as int),
            unsigned_value(text@) == digits_value(digits, radix as nat),
            radix == (if hexadecimal {
                16u64
            } else {
                10u64
            }),
            digits_value(digits.take(i - start), radix as nat) == Some(value as nat),
            value <= max,
        decreases chars@.len() - i,
    {
        assert(digits.take(i - start + 1).drop_last() =~= digits.take(i - start));
        assert(digits.take(i - start + 1).last() == chars@[i as int]);
        let digit = match digit_of(chars[i], hexadecimal) {
            Some(digit) => digit,
            None => {
                proof {
                    if digits_value(digits, radix as nat) is Some {
                        lemma_digits_value_grows(digits, radix as nat, i - start + 1);
                    }
                }
                return None;
            },
        };
        let next: u64 = value * radix + digit;
        if next > max as u64 {
            proof {
                if digits_value(digits, radix as nat) is Some {
                    lemma_digits_value_grows(digits, radix as nat, i - start + 1);
                }
            }
            return None;
        }
        value = next;
        i += 1;
    }
    assert(digits.take(i - start) =~= digits);
    Some(value as u32)
}

/// Position of the first field of the header that is `name`, or the number
/// of fields.
fn find_column(header: &Vec<String>, name: &str) -> (r: usize)
    ensures
        r == column_of(header.deep_view(), name@, 0),
{
    let wanted = to_chars(name);
    let mut i: usize = 0;
    while i < header.len()
        invariant
            i <= header@.len(),
            wanted@ == name@,
            column_of(header.deep_view(), name@, 0) == column_of(
                header.deep_view(),
                name@,
                i as int,
            ),
        decreases header@.len() - i,
    {
        let field = to_chars(header[i].as_str());
        assert(header.deep_view()[i as int] == header@[i as int]@);
        if chars_equal(&field, &wanted) {
            return i;
        }
        i += 1;
    }
    i
}

/// The records that the rows of a table stand for.
pub fn records_from_rows(rows: &Vec<Vec<String>>) -> (r: Result<Vec<Record>, ProcessCsvError>)
    ensures
        match r {
            Ok(records) => records_of_rows(rows.deep_view()) == Ok::<Seq<Record>, ProcessCsvError>(
                records@,
            ),
            Err(e) => records_of_rows(rows.deep_view()) == Err::<Seq<Record>, ProcessCsvError>(e),
        },
{
    let mut records: Vec<Record> = Vec::new();
    if rows.len() <= 1 {
        return Ok(records);
    }
    let ghost all = rows.deep_view();
    assert(all[0] == rows@[0].deep_view());
    let id_column = find_column(&rows[0], "program id");
    let cluster_column = find_column(&rows[0], "popularity");
    if id_column >= rows[0].len() || cluster_column >= rows[0].len() {
        return Err(ProcessCsvError::MissingColumn);
    }
    let mut i: usize = 1;
    while i < rows.len()
        invariant
            1 <= i <= rows@.len(),
            all == rows.deep_view(),
            id_column == column_of(all[0], "program id"@, 0),
            cluster_column == column_of(all[0], "popularity"@, 0),
            id_column < all[0].len(),
            cluster_column < all[0].len(),
            records_up_to(all, i as int, id_column as int, cluster_column as int) == Ok::<
                Seq<Record>,
                ProcessCsvError,
            >(records@),
        decreases rows@.len() - i,
    {
        let row = &rows[i];
        assert(all[i as int] == rows@[i as int].deep_view());
        proof {
            if record_of_row(all[i as int], id_column as int, cluster_column as int) is None {
                lemma_records_fault_stays(
                    all,
                    i + 1,
                    all.len() as int,
                    id_column as int,
                    cluster_column as int,
                );
            }
        }
        if id_column >= row.len() || cluster_column >= row.len() {
            return Err(ProcessCsvError::InvalidNumber(i));
        }
        assert(all[i as int][id_column as int] == row@[id_column as int]@);
        assert(all[i as int][cluster_column as int] == row@[cluster_column as int]@);
        let program_id = match parse_unsigned(row[id_column].as_str(), u32::MAX) {
            Some(value) => value,
            None => {
                assert(record_of_row(all[i as int], id_column as int, cluster_column as int)
                    is None);
                return Err(ProcessCsvError::InvalidNumber(i));
            },
        };
        let cluster_id = match parse_unsigned(row[cluster_column].as_str(), 255) {
            Some(value) => value,
            None => {
                assert(record_of_row(all[i as int], id_column as int, cluster_column as int)
                    is None);
                return Err(ProcessCsvError::InvalidNumber(i));
            },
        };
        records.push(Record::new(program_id, cluster_id as u8));
        i += 1;
    }
    Ok(records)
}

/// The records of a popularity table.
pub fn process_csv_data(data: &[u8]) -> (r: Result<Vec<Record>, ProcessCsvError>)
    ensures
        match r {
            Ok(records) => records_of_data(data@) == Ok::<Seq<Record>, ProcessCsvError>(records@),
            Err(e) => records_of_data(data@) == Err::<Seq<Record>, ProcessCsvError>(e),
        },
{
    match read_csv_rows(data) {
        Ok(rows) => records_from_rows(&rows),
        Err(_) => Err(ProcessCsvError::Csv),
    }
}

/// The clusters of a popularity table.
///
/// Fails when the table cannot be read, and when it names a cluster beyond
/// the last one.
pub fn process_csv_into_clusters(data: &[u8]) -> (r: Result<
    PopularProgramContainer,
    ProcessCsvError,
>)
    ensures
        match records_of_data(data@) {
            Err(e) => r == Err::<PopularProgramContainer, ProcessCsvError>(e),
            Ok(records) => match r {
                Ok(container) => clusters_in_bounds(records) && container@.len()
                    == NUMBER_OF_CLUSTERS && forall|k: int|
                    0 <= k < NUMBER_OF_CLUSTERS ==> #[trigger] container@[k] == cluster_members(
                        records,
                        k as u8,
                    ),
                Err(e) => !clusters_in_bounds(records) && e == ProcessCsvError::Popularity(
                    ProgramPopularityError::PopularityClusterIdOutOfBounds,
                ),
            },
        },
{
    let records = match process_csv_data(data) {
        Ok(records) => records,
        Err(e) => {
            return Err(e);
        },
    };
    match convert_records_to_clusters(records) {
        Ok(container) => Ok(container),
        Err(e) => Err(ProcessCsvError::Popularity(e)),
    }
}

} // verus!
