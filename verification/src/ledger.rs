//! The rows of the ledger, read from the cells of the sheet.

use vstd::prelude::*;
use crate::error::SyncError;
use crate::spreadsheet::SheetsResponse;
use crate::text::same_text;

verus! {

/// The cell text that stands for "yes" in the ledger. Every other text,
/// the one for "no" among them, counts as "no".
pub const YES: &'static str = "Sim";

/// The cell text that stands for "no" in the ledger.
pub const NO: &'static str = "Não";

/// The cell text of a clip bound that has not been set.
pub const UNSET: &'static str = "00:00:00";

/// The number of cells that a row must have to be read.
pub const CELLS: usize = 7;

/// One video that the ledger records.
#[derive(Debug)]
pub struct SpreadsheetTuple {
    pub year: String,
    pub title: String,
    pub link: String,
    pub start_time: String,
    pub end_time: String,
    pub is_downloaded: bool,
    pub is_online: bool,
}

/// A ledger row as the reconciliation sees it.
pub struct LedgerRow {
    pub year: Seq<char>,
    pub title: Seq<char>,
    pub link: Seq<char>,
    pub start_time: Seq<char>,
    pub end_time: Seq<char>,
    pub is_downloaded: bool,
    pub is_online: bool,
}

impl View for SpreadsheetTuple {
    type V = LedgerRow;

    open spec fn view(&self) -> LedgerRow {
        LedgerRow {
            year: self.year@,
            title: self.title@,
            link: self.link@,
            start_time: self.start_time@,
            end_time: self.end_time@,
            is_downloaded: self.is_downloaded,
            is_online: self.is_online,
        }
    }
}

impl DeepView for SpreadsheetTuple {
    type V = LedgerRow;

    open spec fn deep_view(&self) -> LedgerRow {
        self@
    }
}

/// The row that a line of at least seven cells stands for: year, title,
/// link, start and end of the clip, then the two flags, each set exactly
/// where its cell reads `YES`.
pub open spec fn row_of(cells: Seq<Seq<char>>) -> LedgerRow
    recommends
        cells.len() >= CELLS,
{
    LedgerRow {
        year: cells[0],
        title: cells[1],
        link: cells[2],
        start_time: cells[3],
        end_time: cells[4],
        is_downloaded: cells[5] == YES@,
        is_online: cells[6] == YES@,
    }
}

/// Whether the line at `at` is a data line that is too short to be read.
/// The first line is the header and is never read.
pub open spec fn malformed_at(lines: Seq<Seq<Seq<char>>>, at: int) -> bool {
    1 <= at < lines.len() && lines[at].len() < CELLS
}

/// The rows of a sheet whose data lines all have seven cells or more: one
/// row for each line after the header, in the sheet's order.
pub open spec fn rows_of(lines: Seq<Seq<Seq<char>>>) -> Seq<LedgerRow> {
    if lines.len() == 0 {
        Seq::empty()
    } else {
        Seq::new((lines.len() - 1) as nat, |k: int| row_of(lines[k + 1]))
    }
}

/// Reads the ledger rows from the sheet. The header line is left out. A data
/// line with fewer than seven cells stops the reading: the error names the
/// first such line.
pub fn list_spreadsheet_tuples(response: &SheetsResponse) -> (rows: Result<
    Vec<SpreadsheetTuple>,
    SyncError,
>)
    ensures
        match rows {
            Ok(tuples) => {
                &&& forall|at: int| !malformed_at(response@, at)
                &&& tuples.deep_view() == rows_of(response@)
            },
            Err(e) => {
                &&& e matches SyncError::MalformedRow { row }
                &&& malformed_at(response@, row as int)
                &&& forall|before: int| before < row ==> !malformed_at(response@, before)
            },
        },
{
    let mut tuples: Vec<SpreadsheetTuple> = Vec::new();
    let lines = &response.values;
    let mut index: usize = 1;
    while index < lines.len()
        invariant
            1 <= index,
            index <= lines.len() || index == 1,
            lines == &response.values,
            forall|at: int| at < index ==> !malformed_at(response@, at),
            tuples.len() == index - 1,
            forall|k: int| 0 <= k < tuples.len() ==> tuples@[k]@ == row_of(response@[k + 1]),
        decreases lines.len() - index,
    {
        let row = &lines[index];
        if row.len() < CELLS {
            return Err(SyncError::MalformedRow { row: index });
        }
        let tuple = SpreadsheetTuple {
            year: row[0].clone(),
            title: row[1].clone(),
            link: row[2].clone(),
            start_time: row[3].clone(),
            end_time: row[4].clone(),
            is_downloaded: same_text(row[5].as_str(), YES),
            is_online: same_text(row[6].as_str(), YES),
        };
        tuples.push(tuple);
        index += 1;
    }
    Ok(tuples)
}

} // verus!
