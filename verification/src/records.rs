//! The two-dimensional data source of a table: cell text by
//! (row, column) position, with the row and column counts.

use vstd::prelude::*;

verus! {

/// Failures of the engine's total-function surface: the only errors the
/// engine reports are a caller integrating it with inconsistent geometry
/// and a layout whose dimensions do not fit the machine's word size.
#[derive(Debug, Clone, Copy, PartialEq, Eq)]
pub enum GridError {
    /// The records and the grid configuration disagree about the table
    /// shape, or the rows are not all of one length.
    InconsistentGeometry,
    /// A computed width or height does not fit in `usize`.
    TooLarge,
}

/// A rectangular grid of cell text, addressed by zero-based, row-major
/// (row, column) positions.
#[derive(Debug, Clone, PartialEq, Eq)]
pub struct Records {
    pub cells: Vec<Vec<String>>,
    pub cols: usize,
}

/// Whether a grid of rows is rectangular: every row has the length of
/// the first (an empty grid is rectangular).
pub open spec fn rectangular(cells: Seq<Vec<String>>) -> bool {
    forall|r: int| 0 <= r < cells.len() ==> (#[trigger] cells[r])@.len() == cells[0]@.len()
}

impl Records {
    /// Well-formed records: every row holds exactly `cols` cells.
    pub open spec fn wf(self) -> bool {
        forall|r: int| 0 <= r < self.cells@.len() ==> (#[trigger] self.cells@[r])@.len() == self.cols
    }

    /// The number of rows.
    pub open spec fn spec_rows(self) -> int {
        self.cells@.len() as int
    }

    /// The text of the cell at (row, col), as a sequence of characters.
    pub open spec fn cell(self, r: int, c: int) -> Seq<char> {
        self.cells@[r]@[c]@
    }

    /// Builds records from rows of cell text. Succeeds exactly when the
    /// rows are rectangular; the column count is the first row's length.
    pub fn new(cells: Vec<Vec<String>>) -> (r: Result<Records, GridError>)
        ensures
            r is Ok <==> rectangular(cells@),
            r matches Ok(rec) ==> rec.wf() && rec.cells == cells && rec.spec_rows() == cells@.len()
                && rec.cols == (if cells@.len() == 0 { 0int } else { cells@[0]@.len() as int }),
    {
        let cols: usize = if cells.len() == 0 { 0 } else { cells[0].len() };
        let mut i: usize = 0;
        while i < cells.len()
            invariant
                i <= cells@.len(),
                cols == (if cells@.len() == 0 { 0int } else { cells@[0]@.len() as int }),
                forall|r: int| 0 <= r < i ==> (#[trigger] cells@[r])@.len() == cols,
            decreases cells@.len() - i,
        {
            if cells[i].len() != cols {
                return Err(GridError::InconsistentGeometry);
            }
            i += 1;
        }
        Ok(Records { cells, cols })
    }

    /// The number of rows.
    pub fn count_rows(&self) -> (n: usize)
        ensures
            n == self.spec_rows(),
    {
        self.cells.len()
    }

    /// The number of columns.
    pub fn count_columns(&self) -> (n: usize)
        ensures
            n == self.cols,
    {
        self.cols
    }

    /// The text of one cell.
    pub fn get(&self, row: usize, col: usize) -> (s: &String)
        requires
            self.wf(),
            row < self.spec_rows(),
            col < self.cols,
        ensures
            s@ == self.cell(row as int, col as int),
    {
        &self.cells[row][col]
    }

    /// Inserts a full row of cell text before row `row`.
    pub fn insert_row(&mut self, row: usize, cells: Vec<String>)
        requires
            old(self).wf(),
            row <= old(self).spec_rows(),
            cells@.len() == old(self).cols,
        ensures
            final(self).wf(),
            final(self).cols == old(self).cols,
            final(self).cells@ == old(self).cells@.insert(row as int, cells),
    {
        self.cells.insert(row, cells);
    }
}

} // verus!
