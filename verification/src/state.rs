//! The mathematical model of a universe, and what each operation does to it.

use crate::cell::CellState;
use crate::error::rows_fit;
use crate::topology::Neighbourhood;
use vstd::prelude::*;

verus! {

/// One if `flag` holds, zero if not.
pub open spec fn tally(flag: bool) -> nat {
    if flag {
        1
    } else {
        0
    }
}

/// The character that stands for a cell in a summary.
pub open spec fn glyph(alive: bool) -> char {
    if alive {
        '*'
    } else {
        '.'
    }
}

/// One line of a summary: a glyph for each cell of the row, then a newline.
pub open spec fn row_text(row: Seq<CellState>) -> Seq<char> {
    Seq::new(row.len(), |x: int| glyph(row[x].alive)).push('\n')
}

/// The lines of the rows of `grid`, one after the other.
pub open spec fn grid_text(grid: Seq<Seq<CellState>>) -> Seq<char>
    decreases grid.len(),
{
    if grid.len() == 0 {
        Seq::empty()
    } else {
        grid_text(grid.drop_last()) + row_text(grid.last())
    }
}

/// The mathematical model of a universe.
pub struct UniverseState {
    /// The rows from top to bottom, each from left to right.
    pub grid: Seq<Seq<CellState>>,
    /// Whether ticks skip the rules.
    pub paused: bool,
}

impl UniverseState {
    /// The number of rows.
    pub open spec fn height(self) -> int {
        self.grid.len() as int
    }

    /// The number of cells in the first row; zero if there is no row.
    pub open spec fn width(self) -> int {
        if self.grid.len() > 0 {
            self.grid[0].len() as int
        } else {
            0
        }
    }

    /// The invariant of a grid: at least one row, at least one cell in each
    /// row, and as many cells in every row as in the first.
    pub open spec fn rectangular(self) -> bool {
        self.grid.len() > 0 && rows_fit(self.grid, self.height())
    }

    /// Whether column `x` of row `y` exists.
    pub open spec fn has(self, x: int, y: int) -> bool {
        0 <= y < self.grid.len() && 0 <= x < self.grid[y].len()
    }

    /// The cell in column `x` of row `y`.
    pub open spec fn cell(self, x: int, y: int) -> CellState {
        self.grid[y][x]
    }

    /// Whether the cell at `spot`, a pair `(x, y)`, is alive.
    pub open spec fn alive_at(self, spot: (int, int)) -> bool {
        self.cell(spot.0, spot.1).alive
    }

    /// Whether every cell knows its own place and has all its neighbours on
    /// the grid. A tick looks cells up by what they store, so it asks for
    /// this.
    pub open spec fn coherent(self) -> bool {
        &&& self.rectangular()
        &&& forall|x: int, y: int|
            self.has(x, y) ==> {
                let cell = #[trigger] self.cell(x, y);
                &&& cell.x == x
                &&& cell.y == y
                &&& cell.neighbours.within(self.width(), self.height())
            }
    }

    /// Whether the grid is a torus: coherent, and the neighbours that each
    /// cell stores are the eight wrapped positions around it.
    pub open spec fn toroidal(self) -> bool {
        &&& self.rectangular()
        &&& forall|x: int, y: int|
            self.has(x, y) ==> {
                let cell = #[trigger] self.cell(x, y);
                &&& cell.x == x
                &&& cell.y == y
                &&& cell.neighbours == Neighbourhood::around(self.width(), self.height(), x, y)
            }
    }

    /// A universe as it is first made from `grid`: paused.
    pub open spec fn at_start(grid: Seq<Seq<CellState>>) -> UniverseState {
        UniverseState { grid, paused: true }
    }

    /// A universe as it is first made from its dimensions: a torus of dead
    /// cells at baseline, paused.
    pub open spec fn blank(width: int, height: int) -> UniverseState {
        UniverseState {
            grid: Seq::new(
                height as nat,
                |y: int|
                    Seq::new(width as nat, |x: int| CellState::fresh(width, height, x, y, false)),
            ),
            paused: true,
        }
    }

    /// The universe with the cell in column `x` of row `y` replaced.
    pub open spec fn with_cell(self, x: int, y: int, cell: CellState) -> UniverseState {
        UniverseState { grid: self.grid.update(y, self.grid[y].update(x, cell)), ..self }
    }

    /// The universe after the cell at `(x, y)` was asked to be `alive`.
    pub open spec fn set_alive(self, x: int, y: int, alive: bool, budget: int) -> UniverseState {
        self.with_cell(x, y, self.cell(x, y).set_alive(alive, budget))
    }

    /// The universe after the cell at `(x, y)` was warmed.
    pub open spec fn increase_heat(self, x: int, y: int) -> UniverseState {
        self.with_cell(x, y, self.cell(x, y).warmed())
    }

    /// The universe after the cell at `(x, y)` was cooled.
    pub open spec fn decrease_heat(self, x: int, y: int) -> UniverseState {
        self.with_cell(x, y, self.cell(x, y).cooled())
    }

    /// The universe with the pause flag flipped.
    pub open spec fn pause(self) -> UniverseState {
        UniverseState { paused: !self.paused, ..self }
    }

    /// The universe with every cell at baseline; the pause flag stays.
    pub open spec fn reset(self) -> UniverseState {
        UniverseState {
            grid: Seq::new(
                self.grid.len(),
                |y: int| Seq::new(self.grid[y].len(), |x: int| self.cell(x, y).reset()),
            ),
            ..self
        }
    }

    /// How many of the cells at `spots` are alive; a spot that occurs twice
    /// counts twice.
    pub open spec fn live_among(self, spots: Seq<(int, int)>) -> nat
        decreases spots.len(),
    {
        if spots.len() == 0 {
            0
        } else {
            self.live_among(spots.drop_last()) + tally(self.alive_at(spots.last()))
        }
    }

    /// How many of the eight neighbours of the cell at `(x, y)` are alive.
    pub open spec fn live_neighbours(self, x: int, y: int) -> nat {
        self.live_among(self.cell(x, y).neighbours.spots())
    }

    /// The next generation: every cell steps at once, each from the count of
    /// its living neighbours in this generation.
    pub open spec fn tick(self) -> UniverseState {
        UniverseState {
            grid: Seq::new(
                self.grid.len(),
                |y: int|
                    Seq::new(
                        self.grid[y].len(),
                        |x: int| self.cell(x, y).step(self.live_neighbours(x, y), self.paused),
                    ),
            ),
            ..self
        }
    }

    /// The universe `count` generations later.
    pub open spec fn ticks(self, count: nat) -> UniverseState
        decreases count,
    {
        if count == 0 {
            self
        } else {
            self.ticks((count - 1) as nat).tick()
        }
    }

    /// Whether `other` has the shape of this universe and, cell by cell, the
    /// same place and the same neighbours.
    pub open spec fn same_places(self, other: UniverseState) -> bool {
        &&& self.grid.len() == other.grid.len()
        &&& forall|y: int|
            0 <= y < self.grid.len() ==> (#[trigger] self.grid[y]).len() == other.grid[y].len()
        &&& forall|x: int, y: int|
            self.has(x, y) ==> {
                let cell = #[trigger] self.cell(x, y);
                &&& other.cell(x, y).x == cell.x
                &&& other.cell(x, y).y == cell.y
                &&& other.cell(x, y).neighbours == cell.neighbours
            }
    }

    /// The text that shows the grid: a line for each row.
    pub open spec fn summary(self) -> Seq<char> {
        grid_text(self.grid)
    }
}

} // verus!
