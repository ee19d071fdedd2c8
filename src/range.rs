//! Rectangular blocks of cells on one sheet, kept with their smaller corner
//! first, and the geometry between them.
use vstd::prelude::*;

use crate::cell::{cell_text, copy_sheet, same_sheet, sheet_view, Cell};
use crate::codec::{in_bounds, MAX_COLUMN, MAX_ROW};
use crate::error::WebExcelError;

verus! {

/// The smaller of `a` and `b`.
pub open spec fn lower(a: u32, b: u32) -> u32 {
    if a <= b {
        a
    } else {
        b
    }
}

/// The larger of `a` and `b`.
pub open spec fn upper(a: u32, b: u32) -> u32 {
    if a <= b {
        b
    } else {
        a
    }
}

/// Text of the unanchored span from `(first_row, first_column)` to
/// `(last_row, last_column)` on `sheet`: both corners, joined by `:`.
pub open spec fn span_text(
    first_row: nat,
    first_column: nat,
    last_row: nat,
    last_column: nat,
    sheet: Option<Seq<char>>,
) -> Seq<char> {
    cell_text(first_row, first_column, sheet, false, false) + seq![':'] + cell_text(
        last_row,
        last_column,
        sheet,
        false,
        false,
    )
}

/// A rectangle of cells given by its top-left and bottom-right corners.
#[derive(Clone, Debug)]
pub struct Range {
    /// The top-left corner.
    pub cell_start: Cell,
    /// The bottom-right corner.
    pub cell_end: Cell,
}

/// `start + add - sub`, where that lies in `[0, max]`.
fn offset_index(start: u32, add: usize, sub: u32, max: u32) -> (r: Option<u32>)
    requires
        sub <= 1,
    ensures
        match r {
            Some(v) => 0 <= start + add - sub <= max && v == start + add - sub,
            None => !(0 <= start + add - sub <= max),
        },
{
    if add as u64 > max as u64 + 1 {
        return None;
    }
    let moved: u64 = start as u64 + add as u64;
    if moved < sub as u64 || moved - sub as u64 > max as u64 {
        None
    } else {
        Some((moved - sub as u64) as u32)
    }
}

/// The text of `start`, a `:`, and the text of `end`.
fn join_corners(start: &Cell, end: &Cell) -> (r: Result<String, WebExcelError>)
    ensures
        match r {
            Ok(text) => start.wf() && end.wf() && text@ == start.text() + seq![':'] + end.text(),
            Err(e) => !(start.wf() && end.wf()) && e == WebExcelError::OutOfBoundError,
        },
{
    let mut text = match start.to_str_address() {
        Ok(text) => text,
        Err(e) => return Err(e),
    };
    let last = match end.to_str_address() {
        Ok(last) => last,
        Err(e) => return Err(e),
    };
    text.push(':');
    text.append(last.as_str());
    Ok(text)
}

impl Range {
    /// Both corners lie on the sheet, on one sheet, and the start is the
    /// top-left corner.
    pub open spec fn wf(&self) -> bool {
        &&& self.cell_start.wf()
        &&& self.cell_end.wf()
        &&& sheet_view(self.cell_start.sheet) == sheet_view(self.cell_end.sheet)
        &&& self.cell_start.row <= self.cell_end.row
        &&& self.cell_start.column <= self.cell_end.column
    }

    /// `self` is the bounding rectangle of the corners `start` and `end`: each
    /// axis is ordered on its own, and each corner keeps its sheet and anchors.
    pub open spec fn spans(&self, start: &Cell, end: &Cell) -> bool {
        &&& self.cell_start.row == lower(start.row, end.row)
        &&& self.cell_end.row == upper(start.row, end.row)
        &&& self.cell_start.column == lower(start.column, end.column)
        &&& self.cell_end.column == upper(start.column, end.column)
        &&& sheet_view(self.cell_start.sheet) == sheet_view(start.sheet)
        &&& sheet_view(self.cell_end.sheet) == sheet_view(end.sheet)
        &&& self.cell_start.fixed_row == start.fixed_row
        &&& self.cell_start.fixed_column == start.fixed_column
        &&& self.cell_end.fixed_row == end.fixed_row
        &&& self.cell_end.fixed_column == end.fixed_column
    }

    /// `self` is the unanchored bounding rectangle of `(first_row,
    /// first_column)` and `(last_row, last_column)`, both corners on `sheet`.
    pub open spec fn covers(
        &self,
        first_row: u32,
        first_column: u32,
        last_row: u32,
        last_column: u32,
        sheet: Option<Seq<char>>,
    ) -> bool {
        &&& self.cell_start.row == lower(first_row, last_row)
        &&& self.cell_end.row == upper(first_row, last_row)
        &&& self.cell_start.column == lower(first_column, last_column)
        &&& self.cell_end.column == upper(first_column, last_column)
        &&& sheet_view(self.cell_start.sheet) == sheet
        &&& sheet_view(self.cell_end.sheet) == sheet
        &&& !self.cell_start.fixed_row && !self.cell_start.fixed_column
        &&& !self.cell_end.fixed_row && !self.cell_end.fixed_column
    }

    /// Same corners, compared as cells: anchors do not count.
    pub open spec fn same_place(&self, other: &Range) -> bool {
        self.cell_start.same_place(&other.cell_start) && self.cell_end.same_place(&other.cell_end)
    }

    /// How many columns lie between the corners, both included.
    pub open spec fn column_count(&self) -> nat {
        if self.cell_start.column <= self.cell_end.column {
            (self.cell_end.column - self.cell_start.column + 1) as nat
        } else {
            0
        }
    }

    /// How many rows lie between the corners, both included.
    pub open spec fn row_count(&self) -> nat {
        if self.cell_start.row <= self.cell_end.row {
            (self.cell_end.row - self.cell_start.row + 1) as nat
        } else {
            0
        }
    }

    /// Text of the range: the text of both corners, joined by `:`.
    pub open spec fn text(&self) -> Seq<char> {
        self.cell_start.text() + seq![':'] + self.cell_end.text()
    }

    /// Puts the smaller row and the smaller column in `cell_start`, each
    /// axis on its own.
    fn correctify(&mut self)
        ensures
            final(self).spans(&old(self).cell_start, &old(self).cell_end),
    {
        if self.cell_start.column > self.cell_end.column {
            let column = self.cell_start.column;
            self.cell_start.column = self.cell_end.column;
            self.cell_end.column = column;
        }
        if self.cell_start.row > self.cell_end.row {
            let row = self.cell_start.row;
            self.cell_start.row = self.cell_end.row;
            self.cell_end.row = row;
        }
    }

    /// The range with corners `start` and `end`, given in any orientation.
    /// Fails with `RangeDiffSheetError` where they name different sheets.
    pub fn new(start: &Cell, end: &Cell) -> (r: Result<Range, WebExcelError>)
        ensures
            match r {
                Ok(range) => sheet_view(start.sheet) == sheet_view(end.sheet) && range.spans(
                    start,
                    end,
                ),
                Err(e) => sheet_view(start.sheet) != sheet_view(end.sheet) && e
                    == WebExcelError::RangeDiffSheetError,
            },
            r is Ok && start.wf() && end.wf() ==> r->Ok_0.wf(),
    {
        if !same_sheet(&start.sheet, &end.sheet) {
            return Err(WebExcelError::RangeDiffSheetError);
        }
        let mut range = Range {
            cell_start: Cell {
                row: start.row,
                column: start.column,
                sheet: copy_sheet(&start.sheet),
                fixed_row: start.fixed_row,
                fixed_column: start.fixed_column,
            },
            cell_end: Cell {
                row: end.row,
                column: end.column,
                sheet: copy_sheet(&end.sheet),
                fixed_row: end.fixed_row,
                fixed_column: end.fixed_column,
            },
        };
        range.correctify();
        Ok(range)
    }

    /// Text of the range, such as `"A1:B2"` or `"Sheet1!A1:Sheet1!B2"`.
    /// Fails with `OutOfBoundError` where a corner is off the sheet.
    pub fn to_str_address(&self) -> (r: Result<String, WebExcelError>)
        ensures
            match r {
                Ok(text) => self.cell_start.wf() && self.cell_end.wf() && text@ == self.text(),
                Err(e) => !(self.cell_start.wf() && self.cell_end.wf()) && e
                    == WebExcelError::OutOfBoundError,
            },
    {
        join_corners(&self.cell_start, &self.cell_end)
    }

    /// Whether `target` lies in the range, edges included. Sheets are not
    /// compared: that is left to the caller.
    pub fn has(&self, target: &Cell) -> (r: bool)
        ensures
            r == (self.cell_start.row <= target.row <= self.cell_end.row && self.cell_start.column
                <= target.column <= self.cell_end.column),
    {
        self.cell_start.row <= target.row && self.cell_end.row >= target.row
            && self.cell_start.column <= target.column && self.cell_end.column >= target.column
    }

    /// Whether all of `target` lies in the range.
    pub fn includes(&self, target: &Range) -> (r: bool)
        ensures
            r == (self.cell_start.row <= target.cell_start.row && target.cell_end.row
                <= self.cell_end.row && self.cell_start.column <= target.cell_start.column
                && target.cell_end.column <= self.cell_end.column),
    {
        self.cell_start.row <= target.cell_start.row && self.cell_end.row >= target.cell_end.row
            && self.cell_start.column <= target.cell_start.column && self.cell_end.column
            >= target.cell_end.column
    }

    /// Whether the range and `other` share a cell: their rows overlap and
    /// their columns overlap.
    pub fn intersects(&self, other: &Range) -> (r: bool)
        ensures
            r == (self.cell_start.row <= other.cell_end.row && other.cell_start.row
                <= self.cell_end.row && self.cell_start.column <= other.cell_end.column
                && other.cell_start.column <= self.cell_end.column),
    {
        self.cell_start.row <= other.cell_end.row && self.cell_end.row >= other.cell_start.row
            && self.cell_start.column <= other.cell_end.column && self.cell_end.column
            >= other.cell_start.column
    }
}

impl Range {
    /// The sub-range of columns `column_start` up to `column_end`, the end
    /// excluded, counted from the first column of the range, over all its rows.
    /// Fails with `OutOfBoundError` where the columns select nothing
    /// (`column_end <= column_start`) or a corner would leave the sheet.
    pub fn select_column(&self, column_start: usize, column_end: usize) -> (r: Result<
        Range,
        WebExcelError,
    >)
        ensures
            ({
                let first = self.cell_start.column + column_start;
                let last = self.cell_start.column + column_end - 1;
                let fits = column_start < column_end && in_bounds(
                    self.cell_start.row as int,
                    first,
                ) && in_bounds(self.cell_end.row as int, last);
                match r {
                    Ok(range) => fits && range.covers(
                        self.cell_start.row,
                        first as u32,
                        self.cell_end.row,
                        last as u32,
                        sheet_view(self.cell_start.sheet),
                    ),
                    Err(e) => !fits && e == WebExcelError::OutOfBoundError,
                }
            }),
    {
        if column_end <= column_start {
            return Err(WebExcelError::OutOfBoundError);
        }
        let first = offset_index(self.cell_start.column, column_start, 0, MAX_COLUMN);
        let last = offset_index(self.cell_start.column, column_end, 1, MAX_COLUMN);
        match (first, last) {
            (Some(first), Some(last)) => {
                let new_start = match Cell::new(
                    self.cell_start.row,
                    first,
                    copy_sheet(&self.cell_start.sheet),
                ) {
                    Ok(cell) => cell,
                    Err(e) => return Err(e),
                };
                let new_end = match Cell::new(
                    self.cell_end.row,
                    last,
                    copy_sheet(&self.cell_start.sheet),
                ) {
                    Ok(cell) => cell,
                    Err(e) => return Err(e),
                };
                Range::new(&new_start, &new_end)
            },
            _ => Err(WebExcelError::OutOfBoundError),
        }
    }

    /// The sub-range of rows `row_start` up to `row_end`, the end excluded,
    /// counted from the first row of the range, over all its columns. Fails
    /// with `OutOfBoundError` where the rows select nothing
    /// (`row_end <= row_start`) or a corner would leave the sheet.
    pub fn select_row(&self, row_start: usize, row_end: usize) -> (r: Result<
        Range,
        WebExcelError,
    >)
        ensures
            ({
                let first = self.cell_start.row + row_start;
                let last = self.cell_start.row + row_end - 1;
                let fits = row_start < row_end && in_bounds(
                    first,
                    self.cell_start.column as int,
                ) && in_bounds(last, self.cell_end.column as int);
                match r {
                    Ok(range) => fits && range.covers(
                        first as u32,
                        self.cell_start.column,
                        last as u32,
                        self.cell_end.column,
                        sheet_view(self.cell_start.sheet),
                    ),
                    Err(e) => !fits && e == WebExcelError::OutOfBoundError,
                }
            }),
    {
        if row_end <= row_start {
            return Err(WebExcelError::OutOfBoundError);
        }
        let first = offset_index(self.cell_start.row, row_start, 0, MAX_ROW);
        let last = offset_index(self.cell_start.row, row_end, 1, MAX_ROW);
        match (first, last) {
            (Some(first), Some(last)) => {
                let new_start = match Cell::new(
                    first,
                    self.cell_start.column,
                    copy_sheet(&self.cell_start.sheet),
                ) {
                    Ok(cell) => cell,
                    Err(e) => return Err(e),
                };
                let new_end = match Cell::new(
                    last,
                    self.cell_end.column,
                    copy_sheet(&self.cell_start.sheet),
                ) {
                    Ok(cell) => cell,
                    Err(e) => return Err(e),
                };
                Range::new(&new_start, &new_end)
            },
            _ => Err(WebExcelError::OutOfBoundError),
        }
    }

    /// The text of each column of the range, left to right: the span from
    /// its cell in the first row to its cell in the last row, unanchored, on
    /// the sheet of `cell_start`. Fails with `OutOfBoundError` where a corner
    /// of a column is off the sheet.
    pub fn iter_col(&self) -> (r: Result<Vec<String>, WebExcelError>)
        ensures
            ({
                let fits = in_bounds(self.cell_start.row as int, self.cell_end.column as int)
                    && in_bounds(self.cell_end.row as int, self.cell_end.column as int);
                match r {
                    Ok(columns) => {
                        &&& self.column_count() == 0 || fits
                        &&& columns.len() == self.column_count()
                        &&& forall|k: int|
                            0 <= k < columns.len() ==> (#[trigger] columns@[k])@ == span_text(
                                self.cell_start.row as nat,
                                (self.cell_start.column + k) as nat,
                                self.cell_end.row as nat,
                                (self.cell_start.column + k) as nat,
                                sheet_view(self.cell_start.sheet),
                            )
                    },
                    Err(e) => self.column_count() > 0 && !fits && e
                        == WebExcelError::OutOfBoundError,
                }
            }),
    {
        let mut columns: Vec<String> = Vec::new();
        if self.cell_start.column > self.cell_end.column {
            return Ok(columns);
        }
        if self.cell_start.row > MAX_ROW || self.cell_end.row > MAX_ROW || self.cell_end.column
            > MAX_COLUMN {
            return Err(WebExcelError::OutOfBoundError);
        }
        let mut i: u32 = self.cell_start.column;
        while i <= self.cell_end.column
            invariant
                self.cell_start.column <= i <= self.cell_end.column + 1,
                self.cell_end.column <= MAX_COLUMN,
                self.cell_start.row <= MAX_ROW,
                self.cell_end.row <= MAX_ROW,
                columns.len() == i - self.cell_start.column,
                forall|k: int|
                    0 <= k < columns.len() ==> (#[trigger] columns@[k])@ == span_text(
                        self.cell_start.row as nat,
                        (self.cell_start.column + k) as nat,
                        self.cell_end.row as nat,
                        (self.cell_start.column + k) as nat,
                        sheet_view(self.cell_start.sheet),
                    ),
            decreases self.cell_end.column + 1 - i,
        {
            let top = Cell {
                row: self.cell_start.row,
                column: i,
                sheet: copy_sheet(&self.cell_start.sheet),
                fixed_row: false,
                fixed_column: false,
            };
            let bottom = Cell {
                row: self.cell_end.row,
                column: i,
                sheet: copy_sheet(&self.cell_start.sheet),
                fixed_row: false,
                fixed_column: false,
            };
            let text = match join_corners(&top, &bottom) {
                Ok(text) => text,
                Err(e) => return Err(e),
            };
            columns.push(text);
            i = i + 1;
        }
        Ok(columns)
    }

    /// The text of each row of the range, top to bottom: the span from its
    /// cell in the first column to its cell in the last column, unanchored, on
    /// the sheet of `cell_start`. Fails with `OutOfBoundError` where a corner
    /// of a row is off the sheet.
    pub fn iter_row(&self) -> (r: Result<Vec<String>, WebExcelError>)
        ensures
            ({
                let fits = in_bounds(self.cell_end.row as int, self.cell_start.column as int)
                    && in_bounds(self.cell_end.row as int, self.cell_end.column as int);
                match r {
                    Ok(rows) => {
                        &&& self.row_count() == 0 || fits
                        &&& rows.len() == self.row_count()
                        &&& forall|k: int|
                            0 <= k < rows.len() ==> (#[trigger] rows@[k])@ == span_text(
                                (self.cell_start.row + k) as nat,
                                self.cell_start.column as nat,
                                (self.cell_start.row + k) as nat,
                                self.cell_end.column as nat,
                                sheet_view(self.cell_start.sheet),
                            )
                    },
                    Err(e) => self.row_count() > 0 && !fits && e
                        == WebExcelError::OutOfBoundError,
                }
            }),
    {
        let mut rows: Vec<String> = Vec::new();
        if self.cell_start.row > self.cell_end.row {
            return Ok(rows);
        }
        if self.cell_start.column > MAX_COLUMN || self.cell_end.column > MAX_COLUMN
            || self.cell_end.row > MAX_ROW {
            return Err(WebExcelError::OutOfBoundError);
        }
        let mut i: u32 = self.cell_start.row;
        while i <= self.cell_end.row
            invariant
                self.cell_start.row <= i <= self.cell_end.row + 1,
                self.cell_end.row <= MAX_ROW,
                self.cell_start.column <= MAX_COLUMN,
                self.cell_end.column <= MAX_COLUMN,
                rows.len() == i - self.cell_start.row,
                forall|k: int|
                    0 <= k < rows.len() ==> (#[trigger] rows@[k])@ == span_text(
                        (self.cell_start.row + k) as nat,
                        self.cell_start.column as nat,
                        (self.cell_start.row + k) as nat,
                        self.cell_end.column as nat,
                        sheet_view(self.cell_start.sheet),
                    ),
            decreases self.cell_end.row + 1 - i,
        {
            let left = Cell {
                row: i,
                column: self.cell_start.column,
                sheet: copy_sheet(&self.cell_start.sheet),
                fixed_row: false,
                fixed_column: false,
            };
            let right = Cell {
                row: i,
                column: self.cell_end.column,
                sheet: copy_sheet(&self.cell_start.sheet),
                fixed_row: false,
                fixed_column: false,
            };
            let text = match join_corners(&left, &right) {
                Ok(text) => text,
                Err(e) => return Err(e),
            };
            rows.push(text);
            i = i + 1;
        }
        Ok(rows)
    }

    /// Number of rows of a well-formed range.
    pub fn rows(&self) -> (r: u32)
        requires
            self.wf(),
        ensures
            r == self.row_count(),
    {
        self.cell_end.row - self.cell_start.row + 1
    }

    /// Number of columns of a well-formed range.
    pub fn columns(&self) -> (r: u32)
        requires
            self.wf(),
        ensures
            r == self.column_count(),
    {
        self.cell_end.column - self.cell_start.column + 1
    }

    /// Number of cells of a well-formed range.
    pub fn cells(&self) -> (r: u64)
        requires
            self.wf(),
        ensures
            r == self.row_count() * self.column_count(),
    {
        let rows = self.rows() as u64;
        let columns = self.columns() as u64;
        assert(rows * columns <= (MAX_ROW + 1) * (MAX_COLUMN + 1)) by (nonlinear_arith)
            requires
                rows <= MAX_ROW + 1,
                columns <= MAX_COLUMN + 1,
        ;
        rows * columns
    }
}

/// Corners that span the same rectangle give the same range, whichever
/// diagonal they lie on and in whichever order they come: `r1` is built from
/// `a` and `b`, `r2` from `c` and `d`, all on one sheet, and `c`, `d` take
/// their rows from `a` and `b` in some order and their columns likewise.
pub proof fn lemma_corner_order(r1: Range, a: Cell, b: Cell, r2: Range, c: Cell, d: Cell)
    requires
        r1.spans(&a, &b),
        r2.spans(&c, &d),
        sheet_view(a.sheet) == sheet_view(b.sheet),
        sheet_view(a.sheet) == sheet_view(c.sheet),
        sheet_view(c.sheet) == sheet_view(d.sheet),
        (c.row == a.row && d.row == b.row) || (c.row == b.row && d.row == a.row),
        (c.column == a.column && d.column == b.column) || (c.column == b.column && d.column
            == a.column),
    ensures
        r1.same_place(&r2),
{
}

impl PartialEq for Range {
    fn eq(&self, other: &Range) -> (r: bool) {
        self.cell_start == other.cell_start && self.cell_end == other.cell_end
    }
}

impl vstd::std_specs::cmp::PartialEqSpecImpl for Range {
    open spec fn obeys_eq_spec() -> bool {
        true
    }

    open spec fn eq_spec(&self, other: &Range) -> bool {
        self.same_place(other)
    }
}

} // verus!
