//! A single addressable position: row, column, optional sheet and the two
//! anchor flags.
use vstd::prelude::*;

use crate::codec::{
    address_sheet, address_text, address_token, anchors_column, anchors_row, column_value,
    in_bounds, last_bang, lemma_address_round_trip, lemma_last_bang_suffix, r1c1_to_address,
    row_value, scan_token, split_sheet, token_error, MAX_COLUMN, MAX_ROW,
};
use crate::error::WebExcelError;

verus! {

/// How `Cell::anchor` fixes a cell: its row (`A$1`), its column (`$A1`) or
/// both (`$A$1`).
#[derive(Copy, Clone, Debug, PartialEq, Eq, Structural)]
pub enum CellAnchorStyle {
    Row,
    Column,
    All,
}

/// One cell of a sheet. `row` and `column` count from zero; a cell with no
/// sheet is local. The anchor flags only change how the cell is written.
#[derive(Clone, Debug)]
pub struct Cell {
    /// Zero-based row: 0 is row 1 of the sheet.
    pub row: u32,
    /// Zero-based column: 0 is column `A`.
    pub column: u32,
    /// The sheet, if any.
    pub sheet: Option<String>,
    /// The row is anchored: `A1` is written `A$1`.
    pub fixed_row: bool,
    /// The column is anchored: `A1` is written `$A1`.
    pub fixed_column: bool,
}

/// The view of an optional sheet name.
pub open spec fn sheet_view(sheet: Option<String>) -> Option<Seq<char>> {
    match sheet {
        Some(name) => Some(name@),
        None => None,
    }
}

/// `"<sheet>!"` for a sheet, nothing for a local address.
pub open spec fn sheet_prefix(sheet: Option<Seq<char>>) -> Seq<char> {
    match sheet {
        Some(name) => name + seq!['!'],
        None => Seq::empty(),
    }
}

/// Text of a cell: the sheet prefix, then the single address.
pub open spec fn cell_text(
    row: nat,
    column: nat,
    sheet: Option<Seq<char>>,
    fixed_row: bool,
    fixed_column: bool,
) -> Seq<char> {
    sheet_prefix(sheet) + address_text(row, column, fixed_row, fixed_column)
}

/// Copies an optional sheet name.
pub(crate) fn copy_sheet(sheet: &Option<String>) -> (r: Option<String>)
    ensures
        sheet_view(r) == sheet_view(*sheet),
{
    match sheet {
        Some(name) => Some(name.clone()),
        None => None,
    }
}

/// Whether two optional sheet names are equal.
pub(crate) fn same_sheet(a: &Option<String>, b: &Option<String>) -> (r: bool)
    ensures
        r == (sheet_view(*a) == sheet_view(*b)),
{
    match (a, b) {
        (Some(x), Some(y)) => x.eq(y),
        (None, None) => true,
        _ => false,
    }
}

/// `index + offset`, where that lies in `[0, max]`.
fn shift(index: u32, offset: i32, max: u32) -> (r: Option<u32>)
    ensures
        match r {
            Some(v) => 0 <= index + offset <= max && v == index + offset,
            None => !(0 <= index + offset <= max),
        },
{
    let moved: i64 = index as i64 + offset as i64;
    if moved < 0 || moved > max as i64 {
        None
    } else {
        Some(moved as u32)
    }
}

impl Cell {
    /// Both indices lie on the sheet.
    pub open spec fn wf(&self) -> bool {
        in_bounds(self.row as int, self.column as int)
    }

    /// Same position on the same sheet; anchors do not count.
    pub open spec fn same_place(&self, other: &Cell) -> bool {
        self.row == other.row && self.column == other.column && sheet_view(self.sheet)
            == sheet_view(other.sheet)
    }

    /// Text of this cell, anchors and sheet included.
    pub open spec fn text(&self) -> Seq<char> {
        cell_text(
            self.row as nat,
            self.column as nat,
            sheet_view(self.sheet),
            self.fixed_row,
            self.fixed_column,
        )
    }

    /// The unanchored cell at zero-based `(row, column)` of `sheet`. Fails
    /// with `OutOfBoundError` off the sheet.
    pub fn new(row: u32, column: u32, sheet: Option<String>) -> (r: Result<Cell, WebExcelError>)
        ensures
            match r {
                Ok(cell) => in_bounds(row as int, column as int) && cell.row == row && cell.column
                    == column && cell.sheet == sheet && !cell.fixed_row && !cell.fixed_column,
                Err(e) => !in_bounds(row as int, column as int) && e
                    == WebExcelError::OutOfBoundError,
            },
    {
        if row > MAX_ROW || column > MAX_COLUMN {
            return Err(WebExcelError::OutOfBoundError);
        }
        Ok(Cell { row, column, sheet, fixed_row: false, fixed_column: false })
    }

    /// Reads a full address such as `"Sheet1!$B$2"`: the sheet is what stands
    /// before the last `!`. A given `sheet` replaces the one in `data`.
    pub fn from_str_address(data: &str, sheet: Option<String>) -> (r: Result<Cell, WebExcelError>)
        ensures
            match r {
                Ok(cell) => {
                    let t = address_token(data@);
                    &&& token_error(t) is None
                    &&& cell.row == row_value(t) - 1
                    &&& cell.column == column_value(t) - 1
                    &&& cell.fixed_row == anchors_row(t)
                    &&& cell.fixed_column == anchors_column(t)
                    &&& sheet_view(cell.sheet) == match sheet {
                        Some(name) => Some(name@),
                        None => address_sheet(data@),
                    }
                },
                Err(e) => token_error(address_token(data@)) == Some(e),
            },
    {
        let (embedded, token) = split_sheet(data);
        match scan_token(token) {
            Ok(tok) => {
                let chosen = match sheet {
                    Some(name) => Some(name),
                    None => match embedded {
                        Some(name) => Some(name.to_owned()),
                        None => None,
                    },
                };
                Ok(
                    Cell {
                        row: tok.row,
                        column: tok.column,
                        sheet: chosen,
                        fixed_row: tok.fixed_row,
                        fixed_column: tok.fixed_column,
                    },
                )
            },
            Err(e) => Err(e),
        }
    }

    /// Text of this cell with its anchors, after `"<sheet>!"` where it has a
    /// sheet. Fails with `OutOfBoundError` off the sheet.
    pub fn to_str_address(&self) -> (r: Result<String, WebExcelError>)
        ensures
            match r {
                Ok(text) => self.wf() && text@ == self.text(),
                Err(e) => !self.wf() && e == WebExcelError::OutOfBoundError,
            },
    {
        let addr = match r1c1_to_address(self.row, self.column, self.fixed_row, self.fixed_column) {
            Ok(addr) => addr,
            Err(e) => return Err(e),
        };
        match &self.sheet {
            Some(name) => {
                let mut text = name.clone();
                text.push('!');
                text.append(addr.as_str());
                Ok(text)
            },
            None => {
                assert(addr@ =~= self.text());
                Ok(addr)
            },
        }
    }

    /// Puts this cell on sheet `s`.
    pub fn set_sheet(&mut self, s: String)
        ensures
            final(self).sheet == Some(s),
            final(self).row == old(self).row,
            final(self).column == old(self).column,
            final(self).fixed_row == old(self).fixed_row,
            final(self).fixed_column == old(self).fixed_column,
    {
        self.sheet = Some(s);
    }

    /// Sets both anchor flags from `axis`, whatever they were.
    pub fn anchor(&mut self, axis: CellAnchorStyle)
        ensures
            final(self).fixed_row == (axis == CellAnchorStyle::Row || axis == CellAnchorStyle::All),
            final(self).fixed_column == (axis == CellAnchorStyle::Column || axis
                == CellAnchorStyle::All),
            final(self).row == old(self).row,
            final(self).column == old(self).column,
            final(self).sheet == old(self).sheet,
    {
        match axis {
            CellAnchorStyle::Row => {
                self.fixed_row = true;
                self.fixed_column = false;
            },
            CellAnchorStyle::Column => {
                self.fixed_row = false;
                self.fixed_column = true;
            },
            CellAnchorStyle::All => {
                self.fixed_row = true;
                self.fixed_column = true;
            },
        }
    }

    /// Clears both anchor flags.
    pub fn unanchor(&mut self)
        ensures
            !final(self).fixed_row,
            !final(self).fixed_column,
            final(self).row == old(self).row,
            final(self).column == old(self).column,
            final(self).sheet == old(self).sheet,
    {
        self.fixed_row = false;
        self.fixed_column = false;
    }

    /// Moves this cell by `vertical_offset` rows and `horizontal_offset`
    /// columns. Where either index would leave the sheet, fails with
    /// `OutOfBoundError` and leaves the cell as it was.
    pub fn reset(&mut self, vertical_offset: i32, horizontal_offset: i32) -> (r: Result<
        (),
        WebExcelError,
    >)
        ensures
            in_bounds(old(self).row + vertical_offset, old(self).column + horizontal_offset) ==> {
                &&& r is Ok
                &&& final(self).row == old(self).row + vertical_offset
                &&& final(self).column == old(self).column + horizontal_offset
                &&& final(self).sheet == old(self).sheet
                &&& final(self).fixed_row == old(self).fixed_row
                &&& final(self).fixed_column == old(self).fixed_column
            },
            !in_bounds(old(self).row + vertical_offset, old(self).column + horizontal_offset) ==> {
                &&& r == Err::<(), WebExcelError>(WebExcelError::OutOfBoundError)
                &&& *final(self) == *old(self)
            },
    {
        let row = shift(self.row, vertical_offset, MAX_ROW);
        let column = shift(self.column, horizontal_offset, MAX_COLUMN);
        match (row, column) {
            (Some(row), Some(column)) => {
                self.row = row;
                self.column = column;
                Ok(())
            },
            _ => Err(WebExcelError::OutOfBoundError),
        }
    }
}

/// Reading back the text of a cell on the sheet gives the same cell: its
/// sheet is what stands before the last `!`, and the address after it reads
/// as the cell's row, column and anchors.
pub proof fn lemma_cell_round_trip(cell: Cell)
    requires
        cell.wf(),
    ensures
        address_sheet(cell.text()) == sheet_view(cell.sheet),
        token_error(address_token(cell.text())) is None,
        row_value(address_token(cell.text())) == cell.row + 1,
        column_value(address_token(cell.text())) == cell.column + 1,
        anchors_row(address_token(cell.text())) == cell.fixed_row,
        anchors_column(address_token(cell.text())) == cell.fixed_column,
{
    let addr = address_text(
        cell.row as nat,
        cell.column as nat,
        cell.fixed_row,
        cell.fixed_column,
    );
    lemma_address_round_trip(
        cell.row as nat,
        cell.column as nat,
        cell.fixed_row,
        cell.fixed_column,
    );
    lemma_last_bang_suffix(sheet_prefix(sheet_view(cell.sheet)), addr);
    match cell.sheet {
        Some(name) => {
            let prefix = name@ + seq!['!'];
            assert(prefix.drop_last() =~= name@);
            assert(last_bang(prefix) == Some(name@.len() as int));
            assert(cell.text().subrange(0, name@.len() as int) =~= name@);
            assert(cell.text().subrange(name@.len() + 1int, cell.text().len() as int) =~= addr);
        },
        None => {
            assert(cell.text() =~= addr);
            assert(last_bang(Seq::<char>::empty()) is None);
            assert(Seq::<char>::empty() + addr =~= addr);
        },
    }
}

impl PartialEq for Cell {
    fn eq(&self, other: &Cell) -> (r: bool) {
        same_sheet(&self.sheet, &other.sheet) && self.row == other.row && self.column
            == other.column
    }
}

impl vstd::std_specs::cmp::PartialEqSpecImpl for Cell {
    open spec fn obeys_eq_spec() -> bool {
        true
    }

    open spec fn eq_spec(&self, other: &Cell) -> bool {
        self.same_place(other)
    }
}

impl Default for Cell {
    fn default() -> (r: Cell)
        ensures
            r.row == 0 && r.column == 0 && r.sheet is None && !r.fixed_row && !r.fixed_column,
    {
        Cell { row: 0, column: 0, sheet: None, fixed_row: false, fixed_column: false }
    }
}

impl std::str::FromStr for Cell {
    type Err = WebExcelError;

    /// Reads a full address such as `"Sheet1!$B$2"`: the sheet is what
    /// stands before the last `!`.
    fn from_str(s: &str) -> (r: Result<Cell, WebExcelError>)
        ensures
            match r {
                Ok(cell) => {
                    let t = address_token(s@);
                    &&& token_error(t) is None
                    &&& cell.row == row_value(t) - 1
                    &&& cell.column == column_value(t) - 1
                    &&& cell.fixed_row == anchors_row(t)
                    &&& cell.fixed_column == anchors_column(t)
                    &&& sheet_view(cell.sheet) == address_sheet(s@)
                },
                Err(e) => token_error(address_token(s@)) == Some(e),
            },
    {
        Cell::from_str_address(s, None)
    }
}

} // verus!
