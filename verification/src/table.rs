//! Delimited tables: text split into records of fields by `csv`.

use crate::error::MalformedInput;
use crate::text::views;
use vstd::prelude::*;

verus! {

/// `csv::Error`, the error of a reader of `csv`: a value of it is carried as it
/// is, and nothing is known of what it holds.
#[verifier::external_type_specification]
#[verifier::external_body]
pub struct ExCsvError(csv::Error);

/// A table: its records in order, each the texts of its fields in order.
pub type Table = Seq<Seq<Seq<char>>>;

/// The records that `csv` reads from a text, the first line taken as a
/// record like the others and no two records held to the same number of
/// fields; `None` where it reports an error. In all else the settings are
/// those that `ReaderBuilder::new` starts with.
pub uninterp spec fn csv_table(text: Seq<char>) -> Option<Table>;

/// The table that vectors of strings hold.
pub open spec fn table_view(rows: Seq<Vec<String>>) -> Table {
    rows.map_values(|row: Vec<String>| views(row@))
}

/// `Reader::records` of `csv`, on a reader that `ReaderBuilder` makes over
/// the bytes of the text with `has_headers(false)` and `flexible(true)`: all
/// records, each field as a string, or the first error. The result depends
/// on the text alone.
#[verifier::external_body]
fn csv_records(text: &str) -> (r: Result<Vec<Vec<String>>, csv::Error>)
    ensures
        match r {
            Ok(rows) => csv_table(text@) == Some(table_view(rows@)),
            Err(_) => csv_table(text@) is None,
        },
{
    let mut reader =
        csv::ReaderBuilder::new().has_headers(false).flexible(true).from_reader(text.as_bytes());
    reader.records().map(|r| r.map(|record| record.iter().map(String::from).collect())).collect()
}

/// The records of a delimited text.
pub fn read_table(text: &str) -> (r: Result<Vec<Vec<String>>, MalformedInput>)
    ensures
        match r {
            Ok(rows) => csv_table(text@) == Some(table_view(rows@)),
            Err(e) => csv_table(text@) is None && e == MalformedInput::Table,
        },
{
    match csv_records(text) {
        Ok(rows) => Ok(rows),
        Err(_) => Err(MalformedInput::Table),
    }
}

} // verus!
