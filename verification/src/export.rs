//! Laying stored entries out as a table: one header row, then one row for
//! each entry with its headword, its examples and its translation.

use crate::db::WordRecord;
use vstd::prelude::*;
use vstd::string::StringExecFns;

verus! {

/// One cell of the table.
#[derive(Debug, Clone, PartialEq, Eq)]
pub struct Cell {
    pub row: u32,
    pub col: u16,
    pub text: String,
}

/// The mathematical content of a [`Cell`].
pub struct CellView {
    pub row: int,
    pub col: int,
    pub text: Seq<char>,
}

impl View for Cell {
    type V = CellView;

    open spec fn view(&self) -> CellView {
        CellView { row: self.row as int, col: self.col as int, text: self.text@ }
    }
}

/// A table to write, and the ids of the entries in it, which are to be
/// marked as exported once it is written.
#[derive(Debug, Clone, PartialEq, Eq)]
pub struct Sheet {
    pub cells: Vec<Cell>,
    pub exported: Vec<i32>,
}

/// Why nothing is exported.
#[derive(Debug, Clone, Copy, PartialEq, Eq, Structural)]
pub enum ExportError {
    /// No entry was found to export.
    NoWords,
    /// There are more entries than rows can be numbered.
    TooManyRows,
}

/// The text of a cell of the header row.
pub open spec fn header_spec(col: int) -> Seq<char> {
    if col == 0 {
        "русский"@
    } else if col == 1 {
        "examples"@
    } else {
        "перевод"@
    }
}

/// The text that an entry shows in a column.
pub open spec fn field_spec(word: WordRecord, col: int) -> Seq<char> {
    if col == 0 {
        word.text@
    } else if col == 1 {
        word.examples@
    } else {
        word.translation@
    }
}

/// The cells of the table of `words`, row by row and column by column: row
/// 0 is the header, row `i + 1` shows entry `i`.
pub open spec fn cells_spec(words: Seq<WordRecord>) -> Seq<CellView> {
    Seq::new(
        3 * (words.len() + 1) as nat,
        |k: int|
            CellView {
                row: k / 3,
                col: k % 3,
                text: if k < 3 {
                    header_spec(k % 3)
                } else {
                    field_spec(words[k / 3 - 1], k % 3)
                },
            },
    )
}

/// What a list of cells holds.
pub open spec fn cells_view(cells: Seq<Cell>) -> Seq<CellView> {
    Seq::new(cells.len(), |k: int| cells[k]@)
}

/// The ids of a list of records, in order.
pub open spec fn record_ids(words: Seq<WordRecord>) -> Seq<i32> {
    Seq::new(words.len(), |i: int| words[i].id)
}

/// The table of `words` and their ids. A list without entries has the
/// header row alone and no ids. Only a list too long for its rows to be
/// numbered has no table.
pub open spec fn export_spec(words: Seq<WordRecord>) -> Result<(Seq<CellView>, Seq<i32>), ExportError> {
    if words.len() >= u32::MAX {
        Err(ExportError::TooManyRows)
    } else {
        Ok((cells_spec(words), record_ids(words)))
    }
}

/// What is exported when `words` were found for it: nothing where none
/// were found, and their table otherwise.
pub open spec fn export_found_spec(words: Seq<WordRecord>) -> Result<
    (Seq<CellView>, Seq<i32>),
    ExportError,
> {
    if words.len() == 0 {
        Err(ExportError::NoWords)
    } else {
        export_spec(words)
    }
}

/// Refuses an export without entries, and lays the entries out as the
/// table to write where there are some.
pub fn export_found(words: &Vec<WordRecord>) -> (r: Result<Sheet, ExportError>)
    ensures
        match r {
            Ok(sheet) => export_found_spec(words@) == Ok::<(Seq<CellView>, Seq<i32>), ExportError>(
                (cells_view(sheet.cells@), sheet.exported@),
            ),
            Err(e) => export_found_spec(words@) == Err::<(Seq<CellView>, Seq<i32>), ExportError>(e),
        },
{
    if words.len() == 0 {
        return Err(ExportError::NoWords);
    }
    export_to_xlsx(words)
}

/// Lays `words` out as the table to write: the header row, then a row for
/// each entry.
pub fn export_to_xlsx(words: &Vec<WordRecord>) -> (r: Result<Sheet, ExportError>)
    ensures
        match r {
            Ok(sheet) => export_spec(words@) == Ok::<(Seq<CellView>, Seq<i32>), ExportError>(
                (cells_view(sheet.cells@), sheet.exported@),
            ),
            Err(e) => export_spec(words@) == Err::<(Seq<CellView>, Seq<i32>), ExportError>(e),
        },
{
    if words.len() >= u32::MAX as usize {
        return Err(ExportError::TooManyRows);
    }
    let mut cells: Vec<Cell> = Vec::new();
    cells.push(Cell { row: 0, col: 0, text: String::from_str("русский") });
    cells.push(Cell { row: 0, col: 1, text: String::from_str("examples") });
    cells.push(Cell { row: 0, col: 2, text: String::from_str("перевод") });
    let mut exported: Vec<i32> = Vec::new();
    let ghost want = cells_spec(words@);
    let mut i: usize = 0;
    while i < words.len()
        invariant
            i <= words.len() < u32::MAX,
            want == cells_spec(words@),
            cells.len() == 3 * (i + 1),
            exported.len() == i,
            forall|k: int| 0 <= k < cells.len() ==> (#[trigger] cells@[k])@ == want[k],
            forall|j: int| 0 <= j < i ==> exported@[j] == words@[j].id,
        decreases words.len() - i,
    {
        let word = &words[i];
        let row: u32 = (i + 1) as u32;
        cells.push(Cell { row, col: 0, text: word.text.clone() });
        cells.push(Cell { row, col: 1, text: word.examples.clone() });
        cells.push(Cell { row, col: 2, text: word.translation.clone() });
        exported.push(word.id);
        i += 1;
    }
    assert(cells_view(cells@) =~= want);
    assert(exported@ =~= record_ids(words@));
    Ok(Sheet { cells, exported })
}

} // verus!
