//! The cell values of a worksheet, as the transformation reads them.

use crate::commands::excel::styles::clone_text;
use crate::models::excel::MergedRange;
use vstd::prelude::*;

verus! {

/// What a cell of the source sheet holds: its value as text and as an
/// amount, where it has one, and whether it is blank.
///
/// Amounts are counted in whole millionths, so that a cell's number is
/// held exactly as far as it has no more than six decimals; one with more
/// has to be rounded to millionths before it gets here.
#[derive(Debug)]
pub struct SheetCell {
    pub text: Option<String>,
    pub amount: Option<i64>,
    pub blank: bool,
}

/// The cells of a worksheet, row by row, and the width of the sheet: every
/// row holds one cell for each column.
#[derive(Debug)]
pub struct ExcelSheet {
    pub rows: Vec<Vec<SheetCell>>,
    pub width: u32,
}

impl ExcelSheet {
    /// The sheet is a rectangle: each row has as many cells as the sheet is wide.
    pub open spec fn wf(&self) -> bool {
        forall|row: int| 0 <= row < self.rows@.len() ==> (#[trigger] self.rows@[row])@.len()
            == self.width
    }

    /// Whether the sheet is a rectangle.
    pub fn is_well_formed(&self) -> (yes: bool)
        ensures
            yes == self.wf(),
    {
        let mut row: usize = 0;
        while row < self.rows.len()
            invariant
                row <= self.rows@.len(),
                forall|r: int| 0 <= r < row ==> (#[trigger] self.rows@[r])@.len() == self.width,
            decreases self.rows@.len() - row,
        {
            if self.rows[row].len() != self.width as usize {
                return false;
            }
            row += 1;
        }
        true
    }

    /// The cell at `(row, col)` exists.
    pub open spec fn has_cell(&self, row: u32, col: u32) -> bool {
        row < self.rows@.len() && col < self.rows@[row as int]@.len()
    }

    /// The cell at `(row, col)`.
    pub open spec fn cell(&self, row: u32, col: u32) -> SheetCell
        recommends
            self.has_cell(row, col),
    {
        self.rows@[row as int]@[col as int]
    }

    /// The text of the cell at `(row, col)`; none where there is no such
    /// cell or it holds no text.
    pub open spec fn text_at(&self, row: u32, col: u32) -> Option<String> {
        if self.has_cell(row, col) {
            self.cell(row, col).text
        } else {
            None
        }
    }

    /// The amount of the cell at `(row, col)`, in millionths; none where
    /// there is no such cell or it holds no number.
    pub open spec fn amount_at(&self, row: u32, col: u32) -> Option<i64> {
        if self.has_cell(row, col) {
            self.cell(row, col).amount
        } else {
            None
        }
    }

    /// The cell at `(row, col)` is blank or does not exist.
    pub open spec fn blank_at(&self, row: u32, col: u32) -> bool {
        self.has_cell(row, col) ==> self.cell(row, col).blank
    }

    /// The number of rows, as far as 32 bits can count them.
    pub open spec fn height(&self) -> u32 {
        if self.rows@.len() > u32::MAX {
            u32::MAX
        } else {
            self.rows@.len() as u32
        }
    }

    /// The cell at `(row, col)`, if the sheet has one there.
    pub fn get_cell(&self, row: u32, col: u32) -> (cell: Option<&SheetCell>)
        ensures
            match cell {
                Some(c) => self.has_cell(row, col) && *c == self.cell(row, col),
                None => !self.has_cell(row, col),
            },
    {
        if (row as usize) < self.rows.len() {
            let cells = &self.rows[row as usize];
            if (col as usize) < cells.len() {
                return Some(&cells[col as usize]);
            }
        }
        None
    }

    /// The text of the cell at `(row, col)`.
    pub fn get_string(&self, row: u32, col: u32) -> (text: Option<String>)
        ensures
            text == self.text_at(row, col),
    {
        match self.get_cell(row, col) {
            Some(cell) => clone_text(&cell.text),
            None => None,
        }
    }

    /// The amount of the cell at `(row, col)`, in millionths.
    pub fn get_amount(&self, row: u32, col: u32) -> (amount: Option<i64>)
        ensures
            amount == self.amount_at(row, col),
    {
        match self.get_cell(row, col) {
            Some(cell) => cell.amount,
            None => None,
        }
    }

    /// The number of rows.
    pub fn row_count(&self) -> (count: u32)
        ensures
            count == self.height(),
    {
        if self.rows.len() > 0xffff_ffff {
            0xffff_ffff
        } else {
            self.rows.len() as u32
        }
    }

    /// The number of columns that the sheet claims.
    pub fn col_count(&self) -> (count: u32)
        ensures
            count == self.width,
    {
        self.width
    }

    /// The merged regions are not kept with the cell values: always none.
    pub fn get_merged_ranges(&self) -> (ranges: Vec<MergedRange>)
        ensures
            ranges@.len() == 0,
    {
        Vec::new()
    }

    /// Whether the cell at `(row, col)` is blank or missing.
    pub fn is_empty(&self, row: u32, col: u32) -> (blank: bool)
        ensures
            blank == self.blank_at(row, col),
    {
        match self.get_cell(row, col) {
            Some(cell) => cell.blank,
            None => true,
        }
    }

    /// The texts of the cells of `row`, one for each column the sheet claims.
    pub fn get_row(&self, row: u32) -> (texts: Vec<Option<String>>)
        ensures
            texts@.len() == self.width,
            forall|col: u32| col < self.width ==> texts@[col as int] == self.text_at(row, col),
    {
        let mut texts: Vec<Option<String>> = Vec::new();
        let mut col: u32 = 0;
        while col < self.width
            invariant
                col <= self.width,
                texts@.len() == col,
                forall|c: u32| c < col ==> texts@[c as int] == self.text_at(row, c),
            decreases self.width - col,
        {
            texts.push(self.get_string(row, col));
            col += 1;
        }
        texts
    }
}

} // verus!
