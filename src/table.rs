//! Delimited text read as a table of text cells, and lookup of cells by
//! the name of their column.

use vstd::prelude::*;

verus! {

/// Why a table could not be read.
#[derive(Clone, Copy, Debug, PartialEq, Eq, Structural)]
pub enum TableError {
    /// The bytes do not form a delimited table: a bad quote, rows of
    /// unequal width where all must match, or text that is not UTF-8.
    Unreadable,
    /// The record at this index (the header being record 0) lacks a
    /// required field, holds text that is not a number where a number is
    /// required, or holds a date in neither accepted encoding.
    MalformedRecord { row: usize },
}

/// The csv crate's error, carried as an opaque value.
#[verifier::external_type_specification]
#[verifier::external_body]
pub struct ExCsvError(csv::Error);

/// The records, header row included, that the csv crate reads from
/// `input` (each as the text of its fields), or `None` where it reports an
/// error. `flexible` lets rows differ in width.
pub uninterp spec fn csv_records_of(input: Seq<u8>, flexible: bool) -> Option<Seq<Seq<Seq<char>>>>;

/// Relies on `csv::ReaderBuilder` (comma-delimited, headers read as an
/// ordinary record) and `Reader::records`: every record of `input` with its
/// fields as text, or the first error. The outcome depends on the bytes and
/// the `flexible` setting alone.
#[verifier::external_body]
pub(crate) fn read_records(input: &[u8], flexible: bool) -> (r: Result<Vec<Vec<String>>, csv::Error>)
    ensures
        match r {
            Ok(t) => csv_records_of(input@, flexible) == Some(t.deep_view()),
            Err(_) => csv_records_of(input@, flexible) is None,
        },
{
    csv::ReaderBuilder::new()
        .has_headers(false)
        .flexible(flexible)
        .from_reader(input)
        .records()
        .map(|rec| rec.map(|fields| fields.iter().map(String::from).collect()))
        .collect()
}

/// The index of the first header cell at or after `start` that equals
/// `name`.
pub open spec fn column_from(header: Seq<Seq<char>>, name: Seq<char>, start: int) -> Option<int>
    decreases header.len() - start,
{
    if start < 0 || start >= header.len() {
        None
    } else if header[start] == name {
        Some(start)
    } else {
        column_from(header, name, start + 1)
    }
}

/// The index of the first header cell that equals `name`.
pub open spec fn column_of(header: Seq<Seq<char>>, name: Seq<char>) -> Option<int> {
    column_from(header, name, 0)
}

/// The cell of `row` at index `col`, where there is an index and the row
/// reaches it.
pub open spec fn cell_in(row: Seq<Seq<char>>, col: Option<int>) -> Option<Seq<char>> {
    match col {
        Some(c) => if 0 <= c < row.len() {
            Some(row[c])
        } else {
            None
        },
        None => None,
    }
}

/// The cell of `row` under the column named `name`, where the header has
/// such a column and the row reaches it.
pub open spec fn cell_of(header: Seq<Seq<char>>, row: Seq<Seq<char>>, name: Seq<char>) -> Option<
    Seq<char>,
> {
    cell_in(row, column_of(header, name))
}

/// An optional index seen as an optional integer.
pub open spec fn index_view(c: Option<usize>) -> Option<int> {
    match c {
        Some(c) => Some(c as int),
        None => None,
    }
}

/// An optional text seen as an optional sequence of characters.
pub open spec fn text_view(t: Option<String>) -> Option<Seq<char>> {
    match t {
        Some(s) => Some(s@),
        None => None,
    }
}

/// Finds the first column of `header` named `name`.
pub fn column_index(header: &Vec<String>, name: &str) -> (r: Option<usize>)
    ensures
        index_view(r) == column_of(header.deep_view(), name@),
{
    let key = name.to_owned();
    let ghost h = header.deep_view();
    let mut i: usize = 0;
    while i < header.len()
        invariant
            0 <= i <= header.len(),
            h == header.deep_view(),
            key@ == name@,
            column_of(h, name@) == column_from(h, name@, i as int),
        decreases header.len() - i,
    {
        assert(h[i as int] == header[i as int]@);
        if header[i] == key {
            return Some(i);
        }
        i = i + 1;
    }
    None
}

/// The cell of `row` in column `col`, where the row reaches it.
pub fn cell_at(row: &Vec<String>, col: Option<usize>) -> (r: Option<String>)
    ensures
        text_view(r) == cell_in(row.deep_view(), index_view(col)),
{
    match col {
        Some(c) => if c < row.len() {
            Some(row[c].clone())
        } else {
            None
        },
        None => None,
    }
}

} // verus!
