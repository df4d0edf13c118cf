//! Rate tables: a `date` column beside an open set of maturity columns,
//! rows of any width, and cells that may be blank.

use vstd::prelude::*;

use crate::date::{date_of, parse_date};
use crate::number::{is_number_text, is_real_number};
use crate::table::{
    cell_at, cell_of, column_index, column_of, csv_records_of, index_view, read_records,
    TableError,
};

verus! {

/// A record of a rate table reaches the `date` column, and its date text
/// is in one of the accepted encodings.
pub open spec fn rate_row_valid(header: Seq<Seq<char>>, row: Seq<Seq<char>>) -> bool {
    match cell_of(header, row, "date"@) {
        Some(d) => date_of(d) is Some,
        None => false,
    }
}

/// The rate cell of a record: its cell in the column `maturity`, where it
/// has one and it holds a number.
pub open spec fn rate_cell(header: Seq<Seq<char>>, row: Seq<Seq<char>>, maturity: Seq<char>) -> Option<
    Seq<char>,
> {
    match cell_of(header, row, maturity) {
        Some(x) => if is_number_text(x) {
            Some(x)
        } else {
            None
        },
        None => None,
    }
}

/// The rate cells of the records before index `n` of `t` (header first),
/// in order; a record without one is passed over.
pub open spec fn rate_cells(t: Seq<Seq<Seq<char>>>, maturity: Seq<char>, n: int) -> Seq<Seq<char>>
    decreases n,
{
    if n <= 1 {
        seq![]
    } else {
        let before = rate_cells(t, maturity, n - 1);
        match rate_cell(t[0], t[n - 1], maturity) {
            Some(x) => before.push(x),
            None => before,
        }
    }
}

/// The outcome of reading the records `t` (header first) of a rate table
/// for the column `maturity`: the rate cells of all records; or the first
/// record whose date cannot be read is reported.
pub open spec fn maturity_outcome(
    t: Seq<Seq<Seq<char>>>,
    maturity: Seq<char>,
    r: Result<Vec<String>, TableError>,
) -> bool {
    match r {
        Ok(cells) => {
            &&& cells.deep_view() == rate_cells(t, maturity, t.len() as int)
            &&& forall|k: int| 1 <= k < t.len() ==> rate_row_valid(t[0], #[trigger] t[k])
        },
        Err(TableError::MalformedRecord { row }) => {
            &&& 1 <= row < t.len()
            &&& !rate_row_valid(t[0], t[row as int])
            &&& forall|k: int| 1 <= k < row ==> rate_row_valid(t[0], #[trigger] t[k])
        },
        Err(TableError::Unreadable) => false,
    }
}

/// A record whose cell in the requested column is missing or is not a
/// number is passed over without error: where every date of the table
/// reads, the read succeeds, and that record adds nothing to the rate
/// cells.
pub proof fn lemma_record_without_rate_passed_over(
    t: Seq<Seq<Seq<char>>>,
    maturity: Seq<char>,
    r: Result<Vec<String>, TableError>,
    k: int,
)
    requires
        maturity_outcome(t, maturity, r),
        forall|j: int| 1 <= j < t.len() ==> rate_row_valid(t[0], #[trigger] t[j]),
        1 <= k < t.len(),
        rate_cell(t[0], t[k], maturity) is None,
    ensures
        r is Ok,
        rate_cells(t, maturity, k + 1) == rate_cells(t, maturity, k),
{
    if let Err(TableError::MalformedRecord { row }) = r {
        assert(rate_row_valid(t[0], t[row as int]));
    }
}

/// Reads the records of a rate table, header first: the rate cell of each
/// record, in order, in the column named `maturity`. A record that lacks
/// that cell, or whose cell is not a number, is passed over.
pub fn maturity_cells_from_table(table: &Vec<Vec<String>>, maturity: &str) -> (r: Result<
    Vec<String>,
    TableError,
>)
    ensures
        maturity_outcome(table.deep_view(), maturity@, r),
{
    let ghost t = table.deep_view();
    let mut cells: Vec<String> = Vec::new();
    if table.len() == 0 {
        assert(cells.deep_view() =~= rate_cells(t, maturity@, 0));
        return Ok(cells);
    }
    let header = &table[0];
    assert(header.deep_view() == t[0]);
    let date_col = column_index(header, "date");
    let rate_col = column_index(header, maturity);
    let mut i: usize = 1;
    assert(cells.deep_view() =~= rate_cells(t, maturity@, 1));
    while i < table.len()
        invariant
            1 <= i <= table.len(),
            t == table.deep_view(),
            index_view(date_col) == column_of(t[0], "date"@),
            index_view(rate_col) == column_of(t[0], maturity@),
            cells.deep_view() == rate_cells(t, maturity@, i as int),
            forall|k: int| 1 <= k < i ==> rate_row_valid(t[0], #[trigger] t[k]),
        decreases table.len() - i,
    {
        let row = &table[i];
        assert(row.deep_view() == t[i as int]);
        let dated = match cell_at(row, date_col) {
            Some(d) => parse_date(d.as_str()).is_some(),
            None => false,
        };
        if !dated {
            return Err(TableError::MalformedRecord { row: i });
        }
        match cell_at(row, rate_col) {
            Some(x) => {
                if is_real_number(x.as_str()) {
                    let ghost before = cells.deep_view();
                    let ghost xv = x@;
                    cells.push(x);
                    assert(cells.deep_view() =~= before.push(xv));
                }
            },
            None => {},
        }
        i = i + 1;
    }
    Ok(cells)
}

/// Parses a rate table from raw bytes, rows of differing widths allowed,
/// and gives the rate cell of each record in the column named `maturity`.
pub fn read_maturity_cells(input: &[u8], maturity: &str) -> (r: Result<Vec<String>, TableError>)
    ensures
        match csv_records_of(input@, true) {
            Some(t) => maturity_outcome(t, maturity@, r),
            None => r matches Err(TableError::Unreadable),
        },
{
    match read_records(input, true) {
        Ok(table) => maturity_cells_from_table(&table, maturity),
        Err(_) => Err(TableError::Unreadable),
    }
}

} // verus!
