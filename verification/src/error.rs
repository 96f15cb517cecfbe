//! What can be wrong with rows handed in to make a universe.

use crate::cell::CellState;
use vstd::prelude::*;

verus! {

/// Why a set of rows is no grid. Every variant but the first names the
/// offending row, counted from zero, and the widths involved.
#[derive(Clone, Copy, Debug, PartialEq, Eq, Structural)]
pub enum ValidationError {
    /// There are no rows at all.
    NoRows,
    /// Row `row` has no cells.
    EmptyRow { row: usize },
    /// Row `row` holds `found` cells where the first row holds `expected`.
    UnevenRow { row: usize, expected: usize, found: usize },
}

/// Whether each of the first `count` rows has the width of the first row, and
/// that width is not zero.
pub open spec fn rows_fit(grid: Seq<Seq<CellState>>, count: int) -> bool {
    forall|j: int| 0 <= j < count ==> (#[trigger] grid[j]).len() == grid[0].len() && grid[j].len() > 0
}

impl ValidationError {
    /// The row that the error names; zero where it names none.
    pub open spec fn row(self) -> int {
        match self {
            ValidationError::NoRows => 0,
            ValidationError::EmptyRow { row } => row as int,
            ValidationError::UnevenRow { row, .. } => row as int,
        }
    }

    /// Whether this error is the one to report for `grid`: it names the
    /// first row that does not fit, all rows before it fit, and the widths it
    /// carries are those of the grid.
    pub open spec fn describes(self, grid: Seq<Seq<CellState>>) -> bool {
        match self {
            ValidationError::NoRows => grid.len() == 0,
            ValidationError::EmptyRow { row } => {
                &&& row < grid.len()
                &&& rows_fit(grid, row as int)
                &&& grid[row as int].len() == 0
            },
            ValidationError::UnevenRow { row, expected, found } => {
                &&& row < grid.len()
                &&& rows_fit(grid, row as int)
                &&& grid[row as int].len() == found
                &&& grid[0].len() == expected
                &&& found != 0
                &&& found != expected
            },
        }
    }
}

/// At most one error describes a grid.
pub proof fn lemma_error_is_unique(
    grid: Seq<Seq<CellState>>,
    one: ValidationError,
    other: ValidationError,
)
    requires
        one.describes(grid),
        other.describes(grid),
    ensures
        one == other,
{
    if grid.len() > 0 {
        let i = one.row();
        let j = other.row();
        if i < j {
            assert(grid[i].len() == grid[0].len() && grid[i].len() > 0);
        } else if j < i {
            assert(grid[j].len() == grid[0].len() && grid[j].len() > 0);
        }
    }
}

} // verus!
