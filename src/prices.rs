//! Daily price tables: a header naming the fields `date`, `open`, `high`,
//! `low`, `close` and `volume` (in any order, among other columns), then
//! one record per day.

use vstd::prelude::*;

use crate::date::{date_of, parse_date, CalendarDate};
use crate::number::{is_number_text, is_real_number};
use crate::table::{
    cell_at, cell_of, column_index, column_of, csv_records_of, index_view, read_records,
    TableError,
};

verus! {

/// One day of a price table: its date, and the text of each numeric field
/// as the table holds it (each the text of a real number).
#[derive(Debug)]
pub struct PriceRow {
    pub date: CalendarDate,
    pub open: String,
    pub high: String,
    pub low: String,
    pub close: String,
    pub volume: String,
}

/// The record has a cell under the column `name`, and it holds a number.
pub open spec fn number_cell(header: Seq<Seq<char>>, row: Seq<Seq<char>>, name: Seq<char>) -> bool {
    match cell_of(header, row, name) {
        Some(x) => is_number_text(x),
        None => false,
    }
}

/// A record has every field of a price row, each numeric field holds a
/// number, and its date text is in one of the accepted encodings.
pub open spec fn price_row_valid(header: Seq<Seq<char>>, row: Seq<Seq<char>>) -> bool {
    &&& number_cell(header, row, "open"@)
    &&& number_cell(header, row, "high"@)
    &&& number_cell(header, row, "low"@)
    &&& number_cell(header, row, "close"@)
    &&& number_cell(header, row, "volume"@)
    &&& match cell_of(header, row, "date"@) {
        Some(d) => date_of(d) is Some,
        None => false,
    }
}

/// `p` holds what the record says: the date its date text denotes, and
/// each numeric field's text.
pub open spec fn price_row_holds(p: PriceRow, header: Seq<Seq<char>>, row: Seq<Seq<char>>) -> bool {
    &&& cell_of(header, row, "open"@) == Some(p.open@)
    &&& cell_of(header, row, "high"@) == Some(p.high@)
    &&& cell_of(header, row, "low"@) == Some(p.low@)
    &&& cell_of(header, row, "close"@) == Some(p.close@)
    &&& cell_of(header, row, "volume"@) == Some(p.volume@)
    &&& match cell_of(header, row, "date"@) {
        Some(d) => date_of(d) == Some(p.date.triple()),
        None => false,
    }
}

/// The outcome of reading the records `t` (header first) as a price
/// table: every record after the header gives one row, in order; or the
/// first record that is not a valid price row is reported.
pub open spec fn price_table_outcome(t: Seq<Seq<Seq<char>>>, r: Result<Vec<PriceRow>, TableError>) -> bool {
    match r {
        Ok(rows) => {
            &&& rows@.len() == if t.len() == 0 {
                0
            } else {
                t.len() - 1
            }
            &&& forall|k: int| 1 <= k < t.len() ==> price_row_valid(t[0], #[trigger] t[k])
            &&& forall|k: int| 0 <= k < rows@.len() ==> price_row_holds(#[trigger] rows@[k], t[0], t[k + 1])
        },
        Err(TableError::MalformedRecord { row }) => {
            &&& 1 <= row < t.len()
            &&& !price_row_valid(t[0], t[row as int])
            &&& forall|k: int| 1 <= k < row ==> price_row_valid(t[0], #[trigger] t[k])
        },
        Err(TableError::Unreadable) => false,
    }
}

/// Where each field of a price row stands in the header.
struct PriceColumns {
    date: Option<usize>,
    open: Option<usize>,
    high: Option<usize>,
    low: Option<usize>,
    close: Option<usize>,
    volume: Option<usize>,
}

impl PriceColumns {
    spec fn located_in(self, header: Seq<Seq<char>>) -> bool {
        &&& index_view(self.date) == column_of(header, "date"@)
        &&& index_view(self.open) == column_of(header, "open"@)
        &&& index_view(self.high) == column_of(header, "high"@)
        &&& index_view(self.low) == column_of(header, "low"@)
        &&& index_view(self.close) == column_of(header, "close"@)
        &&& index_view(self.volume) == column_of(header, "volume"@)
    }
}

/// Reads one record as a price row.
fn price_row_of(cols: &PriceColumns, Ghost(header): Ghost<Seq<Seq<char>>>, row: &Vec<String>) -> (r:
    Option<PriceRow>)
    requires
        cols.located_in(header),
    ensures
        match r {
            Some(p) => price_row_valid(header, row.deep_view()) && price_row_holds(
                p,
                header,
                row.deep_view(),
            ),
            None => !price_row_valid(header, row.deep_view()),
        },
{
    let date = cell_at(row, cols.date);
    let open = cell_at(row, cols.open);
    let high = cell_at(row, cols.high);
    let low = cell_at(row, cols.low);
    let close = cell_at(row, cols.close);
    let volume = cell_at(row, cols.volume);
    match (date, open, high, low, close, volume) {
        (Some(d), Some(open), Some(high), Some(low), Some(close), Some(volume)) => {
            if !(is_real_number(open.as_str()) && is_real_number(high.as_str()) && is_real_number(
                low.as_str(),
            ) && is_real_number(close.as_str()) && is_real_number(volume.as_str())) {
                return None;
            }
            match parse_date(d.as_str()) {
                Some(date) => Some(PriceRow { date, open, high, low, close, volume }),
                None => None,
            }
        },
        _ => None,
    }
}

/// Reads the records of a price table, header first, as price rows.
pub fn price_rows_from_table(table: &Vec<Vec<String>>) -> (r: Result<Vec<PriceRow>, TableError>)
    ensures
        price_table_outcome(table.deep_view(), r),
{
    let ghost t = table.deep_view();
    let mut rows: Vec<PriceRow> = Vec::new();
    if table.len() == 0 {
        return Ok(rows);
    }
    let header = &table[0];
    assert(header.deep_view() == t[0]);
    let cols = PriceColumns {
        date: column_index(header, "date"),
        open: column_index(header, "open"),
        high: column_index(header, "high"),
        low: column_index(header, "low"),
        close: column_index(header, "close"),
        volume: column_index(header, "volume"),
    };
    let mut i: usize = 1;
    while i < table.len()
        invariant
            1 <= i <= table.len(),
            t == table.deep_view(),
            cols.located_in(t[0]),
            rows@.len() == i - 1,
            forall|k: int| 1 <= k < i ==> price_row_valid(t[0], #[trigger] t[k]),
            forall|k: int| 0 <= k < rows@.len() ==> price_row_holds(#[trigger] rows@[k], t[0], t[k + 1]),
        decreases table.len() - i,
    {
        assert(table[i as int].deep_view() == t[i as int]);
        match price_row_of(&cols, Ghost(t[0]), &table[i]) {
            Some(p) => rows.push(p),
            None => return Err(TableError::MalformedRecord { row: i }),
        }
        i = i + 1;
    }
    Ok(rows)
}

/// Parses a price table from raw bytes. Any byte sequence is accepted as
/// input: the outcome is the rows or an error, never a panic.
pub fn parse_price_table(input: &[u8]) -> (r: Result<Vec<PriceRow>, TableError>)
    ensures
        match csv_records_of(input@, false) {
            Some(t) => price_table_outcome(t, r),
            None => r matches Err(TableError::Unreadable),
        },
{
    match read_records(input, false) {
        Ok(table) => price_rows_from_table(&table),
        Err(_) => Err(TableError::Unreadable),
    }
}

} // verus!
