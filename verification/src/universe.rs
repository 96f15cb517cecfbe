//! The universe: a rectangular grid of cells and a pause flag.

use crate::cell::{Cell, CellState, DEFAULT_HEIGHT, DEFAULT_WIDTH};
use crate::error::{rows_fit, ValidationError};
use crate::laws::{
    lemma_blank_universe, lemma_operations_keep_places, lemma_same_places, lemma_torus_is_coherent,
};
use crate::state::{glyph, grid_text, UniverseState};
use crate::topology::{lemma_spots_within, on_grid, spot_of};
use vstd::prelude::*;
use vstd::string::*;

verus! {

/// The grid that a vector of rows stands for.
pub open spec fn grid_of(rows: Vec<Vec<Cell>>) -> Seq<Seq<CellState>> {
    Seq::new(rows@.len(), |y: int| Seq::new(rows@[y]@.len(), |x: int| rows@[y]@[x]@))
}

/// Whether two vectors of rows have as many rows, and row by row as many cells.
spec fn same_shape(rows: Vec<Vec<Cell>>, others: Vec<Vec<Cell>>) -> bool {
    &&& rows.len() == others.len()
    &&& forall|y: int| 0 <= y < rows.len() ==> (#[trigger] rows[y]).len() == others[y].len()
}

/// The grid in the middle of a tick of `state`: the cells before column `col`
/// of row `row`, in reading order, have stepped, the others have not.
spec fn ticked_before(state: UniverseState, col: int, row: int) -> Seq<Seq<CellState>> {
    Seq::new(
        state.grid.len(),
        |y: int|
            Seq::new(
                state.grid[y].len(),
                |x: int|
                    if y < row || (y == row && x < col) {
                        state.tick().cell(x, y)
                    } else {
                        state.cell(x, y)
                    },
            ),
    )
}

/// The grid in the middle of a reset of `state`: the cells before column
/// `col` of row `row`, in reading order, are at baseline, the others are as
/// they were.
spec fn reset_before(state: UniverseState, col: int, row: int) -> Seq<Seq<CellState>> {
    Seq::new(
        state.grid.len(),
        |y: int|
            Seq::new(
                state.grid[y].len(),
                |x: int|
                    if y < row || (y == row && x < col) {
                        state.reset().cell(x, y)
                    } else {
                        state.cell(x, y)
                    },
            ),
    )
}

/// A grid of cells with a pause flag. It starts out paused.
///
/// The grid of a universe is a rectangle: [`Universe::new`] takes nothing
/// else, and every method leaves each cell in its place, so the shape never
/// changes. What a method does is stated over the model, [`UniverseState`].
pub struct Universe {
    rows: Vec<Vec<Cell>>,
    paused: bool,
}

impl View for Universe {
    type V = UniverseState;

    closed spec fn view(&self) -> UniverseState {
        UniverseState { grid: grid_of(self.rows), paused: self.paused }
    }
}

impl Universe {
    /// Makes a paused universe of the rows given, if they form a grid: at
    /// least one row, no empty row, all rows of one width. Otherwise reports
    /// the first row that does not fit.
    pub fn new(rows: Vec<Vec<Cell>>) -> (made: Result<Self, ValidationError>)
        ensures
            made is Ok <==> UniverseState::at_start(grid_of(rows)).rectangular(),
            match made {
                Ok(universe) => universe@ == UniverseState::at_start(grid_of(rows)),
                Err(error) => error.describes(grid_of(rows)),
            },
    {
        let height: usize = rows.len();

        if height == 0 {
            return Err(ValidationError::NoRows);
        }
        let width: usize = rows[0].len();

        for i in 0..height
            invariant
                0 < height == rows.len(),
                width == rows[0].len(),
                rows_fit(grid_of(rows), i as int),
        {
            let this_width: usize = rows[i].len();
            assert(grid_of(rows)[i as int].len() == this_width);

            if this_width == 0 {
                return Err(ValidationError::EmptyRow { row: i });
            }
            if this_width != width {
                return Err(ValidationError::UnevenRow { row: i, expected: width, found: this_width });
            }
        }

        Ok(Self { rows, paused: true })
    }

    /// Makes a paused torus of `width` columns and `height` rows, all cells
    /// dead and at baseline. Without rows or without columns there is no
    /// grid, and the error says which. Neither dimension may be beyond the
    /// signed 64-bit numbers, in which the neighbours are worked out.
    pub fn from_dimensions(width: usize, height: usize) -> (made: Result<Self, ValidationError>)
        requires
            width <= i64::MAX,
            height <= i64::MAX,
        ensures
            match made {
                Ok(universe) => {
                    &&& width > 0
                    &&& height > 0
                    &&& universe@ == UniverseState::blank(width as int, height as int)
                    &&& universe@.toroidal()
                    &&& universe@.coherent()
                },
                Err(error) => {
                    &&& height == 0 ==> error == ValidationError::NoRows
                    &&& height > 0 ==> width == 0 && error == (ValidationError::EmptyRow { row: 0 })
                },
            },
    {
        let mut cells: Vec<Vec<Cell>> = Vec::new();

        for i in 0..height
            invariant
                width <= i64::MAX,
                height <= i64::MAX,
                cells.len() == i,
                forall|y: int| 0 <= y < i ==> (#[trigger] cells[y]).len() == width,
                forall|x: int, y: int|
                    0 <= y < i && 0 <= x < width ==> (#[trigger] cells[y][x])@ == CellState::fresh(
                        width as int,
                        height as int,
                        x,
                        y,
                        false,
                    ),
        {
            let mut row: Vec<Cell> = Vec::new();
            for j in 0..width
                invariant
                    width <= i64::MAX,
                    height <= i64::MAX,
                    i < height,
                    row.len() == j,
                    forall|x: int|
                        0 <= x < j ==> (#[trigger] row[x])@ == CellState::fresh(
                            width as int,
                            height as int,
                            x,
                            i as int,
                            false,
                        ),
            {
                let cell = Cell::new(width, height, j, i, false);
                row.push(cell);
            }
            cells.push(row);
        }

        proof {
            if width > 0 && height > 0 {
                assert(grid_of(cells) =~~= UniverseState::blank(width as int, height as int).grid);
                lemma_blank_universe(width as int, height as int);
                lemma_torus_is_coherent(UniverseState::blank(width as int, height as int));
            }
        }
        Self::new(cells)
    }

    /// Whether `coords`, a pair `(x, y)`, names a cell of the grid.
    pub fn has(&self, coords: (usize, usize)) -> (has: bool)
        ensures
            has == self@.has(coords.0 as int, coords.1 as int),
    {
        coords.1 < self.rows.len() && coords.0 < self.rows[coords.1].len()
    }

    /// Whether the grid is one that [`Universe::tick`] can work on: a
    /// rectangle in which every cell knows its own place and has all its
    /// neighbours on the grid. A universe made by
    /// [`Universe::from_dimensions`] is, and stays so.
    pub fn is_coherent(&self) -> (coherent: bool)
        ensures
            coherent == self@.coherent(),
    {
        let height: usize = self.rows.len();
        if height == 0 {
            return false;
        }
        let width: usize = self.rows[0].len();
        if width == 0 {
            assert(self@.grid[0].len() == 0);
            return false;
        }
        for y in 0..height
            invariant
                0 < height == self.rows.len(),
                0 < width == self.rows[0].len(),
                rows_fit(self@.grid, y as int),
                forall|cx: int, cy: int|
                    0 <= cy < y && 0 <= cx < width ==> {
                        let cell = #[trigger] self@.cell(cx, cy);
                        &&& cell.x == cx
                        &&& cell.y == cy
                        &&& cell.neighbours.within(width as int, height as int)
                    },
        {
            let row = &self.rows[y];
            assert(self@.grid[y as int].len() == row.len());
            if row.len() != width {
                return false;
            }
            for x in 0..width
                invariant
                    y < height == self.rows.len(),
                    0 < width == self.rows[0].len(),
                    row == &self.rows[y as int],
                    row.len() == width,
                    rows_fit(self@.grid, y as int),
                    forall|cx: int|
                        0 <= cx < x ==> {
                            let cell = #[trigger] self@.cell(cx, y as int);
                            &&& cell.x == cx
                            &&& cell.y == y
                            &&& cell.neighbours.within(width as int, height as int)
                        },
            {
                let cell = &row[x];
                let at = cell.coords();
                assert(cell@ == self@.cell(x as int, y as int));
                if at.0 != x || at.1 != y || !cell.neighbours().within(width, height) {
                    return false;
                }
            }
        }
        true
    }

    /// Renders the grid as text, a line for each row: `*` for a living cell,
    /// `.` for a dead one, and a newline after each row.
    pub fn summarize(&self) -> (text: String)
        ensures
            text@ == self@.summary(),
    {
        let mut output = String::new();
        let height: usize = self.rows.len();

        for y in 0..height
            invariant
                height == self.rows.len(),
                output@ == grid_text(self@.grid.take(y as int)),
        {
            let row = &self.rows[y];
            let width: usize = row.len();
            for x in 0..width
                invariant
                    y < height == self.rows.len(),
                    row == &self.rows[y as int],
                    width == row.len(),
                    output@ == grid_text(self@.grid.take(y as int)) + Seq::new(
                        x as nat,
                        |k: int| glyph(self@.grid[y as int][k].alive),
                    ),
            {
                let mut state = ".";

                if row[x].alive() {
                    state = "*";
                }
                proof {
                    reveal_strlit(".");
                    reveal_strlit("*");
                }
                output.append(state);
            }
            proof {
                reveal_strlit("\n");
                assert(self@.grid.take(y + 1).drop_last() =~= self@.grid.take(y as int));
            }
            output.append("\n");
        }
        proof {
            assert(self@.grid.take(height as int) =~= self@.grid);
        }
        output
    }

    /// A copy of the grid, row by row.
    pub fn rows(&self) -> (rows: Vec<Vec<Cell>>)
        ensures
            grid_of(rows) == self@.grid,
    {
        self.rows.clone()
    }

    /// Puts every cell back to baseline: dead, resting heat, no budget. The
    /// pause flag, the places and the neighbours stay.
    pub fn reset(&mut self)
        ensures
            final(self)@ == old(self)@.reset(),
            old(self)@.same_places(final(self)@),
    {
        let height: usize = self.rows.len();
        for y in 0..height
            invariant
                same_shape(self.rows, old(self).rows),
                height == self.rows.len(),
                self@.paused == old(self)@.paused,
                self@.grid =~~= reset_before(old(self)@, 0, y as int),
        {
            let width: usize = self.rows[y].len();
            for x in 0..width
                invariant
                    same_shape(self.rows, old(self).rows),
                    y < height == self.rows.len(),
                    width == self.rows[y as int].len(),
                    self@.paused == old(self)@.paused,
                    self@.grid =~~= reset_before(old(self)@, x as int, y as int),
            {
                let ghost before = self@;
                let cell = &mut self.rows[y][x];
                cell.reset();
                proof {
                    let here = old(self)@.cell(x as int, y as int);
                    assert(before.grid[y as int][x as int] == here);
                    assert(self@.grid =~~= before.with_cell(x as int, y as int, here.reset()).grid);
                }
            }
        }
        assert(self@.grid =~~= old(self)@.reset().grid);
        proof {
            lemma_operations_keep_places(old(self)@, 0, 0, false, 0);
        }
    }

    /// Asks the cell at `coords`, a pair `(x, y)`, to be `alive`; see
    /// [`Cell::set_alive`] for when the request is held off.
    pub fn set_alive(&mut self, coords: (usize, usize), alive: bool, ignore: i64)
        requires
            old(self)@.has(coords.0 as int, coords.1 as int),
            ignore >= 0,
        ensures
            final(self)@ == old(self)@.set_alive(
                coords.0 as int,
                coords.1 as int,
                alive,
                ignore as int,
            ),
            old(self)@.same_places(final(self)@),
    {
        let x: usize = coords.0;
        let y: usize = coords.1;
        let cell = &mut self.rows[y][x];
        cell.set_alive(alive, ignore);
        assert(self@.grid =~~= old(self)@.set_alive(x as int, y as int, alive, ignore as int).grid);
    }

    /// Whether the cell at `coords`, a pair `(x, y)`, is alive.
    pub fn alive(&mut self, coords: (usize, usize)) -> (alive: bool)
        requires
            old(self)@.has(coords.0 as int, coords.1 as int),
        ensures
            final(self)@ == old(self)@,
            alive == old(self)@.cell(coords.0 as int, coords.1 as int).alive,
    {
        let x: usize = coords.0;
        let y: usize = coords.1;
        let cell = &mut self.rows[y][x];
        let alive = cell.alive();
        assert(self@.grid =~~= old(self)@.grid);
        alive
    }

    /// Warms the cell at `coords`, a pair `(x, y)`.
    pub fn increase_heat(&mut self, coords: (usize, usize))
        requires
            old(self)@.has(coords.0 as int, coords.1 as int),
        ensures
            final(self)@ == old(self)@.increase_heat(coords.0 as int, coords.1 as int),
            old(self)@.same_places(final(self)@),
    {
        let x: usize = coords.0;
        let y: usize = coords.1;
        let cell = &mut self.rows[y][x];
        cell.increase_heat();
        assert(self@.grid =~~= old(self)@.increase_heat(x as int, y as int).grid);
    }

    /// Cools the cell at `coords`, a pair `(x, y)`.
    pub fn decrease_heat(&mut self, coords: (usize, usize))
        requires
            old(self)@.has(coords.0 as int, coords.1 as int),
        ensures
            final(self)@ == old(self)@.decrease_heat(coords.0 as int, coords.1 as int),
            old(self)@.same_places(final(self)@),
    {
        let x: usize = coords.0;
        let y: usize = coords.1;
        let cell = &mut self.rows[y][x];
        cell.decrease_heat();
        assert(self@.grid =~~= old(self)@.decrease_heat(x as int, y as int).grid);
    }

    /// Moves the universe on by one generation. Every cell is judged by the
    /// generation before the tick: the neighbours are counted in a copy of
    /// the grid taken first. While paused no cell is born or dies, but the
    /// heat of every cell still moves.
    ///
    /// Cells are looked up by the places that they and their neighbours
    /// store, so the universe must be coherent; [`Universe::is_coherent`]
    /// tells whether it is.
    pub fn tick(&mut self)
        requires
            old(self)@.coherent(),
        ensures
            final(self)@ == old(self)@.tick(),
            old(self)@.same_places(final(self)@),
            final(self)@.coherent(),
    {
        let rows = self.rows();
        let height: usize = rows.len();

        for y in 0..height
            invariant
                old(self)@.coherent(),
                grid_of(rows) == old(self)@.grid,
                height == rows.len(),
                self@.paused == old(self)@.paused,
                self@.grid =~~= ticked_before(old(self)@, 0, y as int),
        {
            let width: usize = rows[y].len();
            for x in 0..width
                invariant
                    old(self)@.coherent(),
                    grid_of(rows) == old(self)@.grid,
                    y < height == rows.len(),
                    width == rows[y as int].len(),
                    self@.paused == old(self)@.paused,
                    self@.grid =~~= ticked_before(old(self)@, x as int, y as int),
            {
                let this_cell: Cell = rows[y][x];
                let ghost here = old(self)@.cell(x as int, y as int);
                proof {
                    lemma_spots_within(
                        here.neighbours,
                        old(self)@.width(),
                        old(self)@.height(),
                    );
                }

                let mut alive_neighbours: usize = 0;
                let spots = this_cell.neighbours().to_vec();
                for k in 0..spots.len()
                    invariant
                        old(self)@.rectangular(),
                        grid_of(rows) == old(self)@.grid,
                        spots@.len() == 8,
                        forall|i: int| 0 <= i < 8 ==> spot_of(#[trigger] spots@[i]) == here.neighbours.spots()[i],
                        forall|i: int|
                            0 <= i < 8 ==> on_grid(
                                old(self)@.width(),
                                old(self)@.height(),
                                #[trigger] here.neighbours.spots()[i],
                            ),
                        alive_neighbours <= k,
                        alive_neighbours == old(self)@.live_among(
                            here.neighbours.spots().take(k as int),
                        ),
                {
                    let coords = spots[k];
                    proof {
                        assert(grid_of(rows)[coords.1 as int].len() == old(self)@.width());
                        assert(here.neighbours.spots().take(k + 1).drop_last()
                            =~= here.neighbours.spots().take(k as int));
                    }
                    let neighbour_cell: Cell = rows[coords.1][coords.0];
                    if neighbour_cell.alive() {
                        alive_neighbours += 1;
                    }
                }
                proof {
                    assert(here.neighbours.spots().take(8) =~= here.neighbours.spots());
                }

                let was_alive = self.alive(this_cell.coords());

                if !self.paused {
                    if this_cell.alive() && alive_neighbours < 2 {
                        self.set_alive(this_cell.coords(), false, 0);
                    }
                    if this_cell.alive() && alive_neighbours > 3 {
                        self.set_alive(this_cell.coords(), false, 0);
                    }
                    if !this_cell.alive() && alive_neighbours == 3 {
                        self.set_alive(this_cell.coords(), true, 0);
                    }
                }
                let is_alive = self.alive(this_cell.coords());

                if !was_alive && is_alive {
                    self.increase_heat(this_cell.coords());
                } else {
                    self.decrease_heat(this_cell.coords());
                }
            }
        }
        assert(self@.grid =~~= old(self)@.tick().grid);
        proof {
            lemma_operations_keep_places(old(self)@, 0, 0, false, 0);
            lemma_same_places(old(self)@, self@);
        }
    }

    /// Flips the pause flag.
    pub fn pause(&mut self)
        ensures
            final(self)@ == old(self)@.pause(),
            old(self)@.same_places(final(self)@),
    {
        self.paused = !self.paused;
    }
}

impl Clone for Universe {
    fn clone(&self) -> (copy: Self)
        ensures
            copy@ == self@,
    {
        Universe { rows: self.rows(), paused: self.paused }
    }
}

impl Default for Universe {
    /// A blank universe of the default size.
    fn default() -> (universe: Self)
        ensures
            universe@ == UniverseState::blank(DEFAULT_WIDTH as int, DEFAULT_HEIGHT as int),
            universe@.toroidal(),
            universe@.coherent(),
    {
        let possible_universe = Self::from_dimensions(DEFAULT_WIDTH, DEFAULT_HEIGHT);
        match possible_universe {
            Ok(universe) => universe,
            Err(_) => unreached(),
        }
    }
}

} // verus!
