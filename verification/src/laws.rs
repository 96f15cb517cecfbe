//! What holds of the operations of a universe, proved over its model.

use crate::cell::{CellState, HEAT_BASELINE, HEAT_LOSS};
use crate::error::ValidationError;
use crate::state::{glyph, grid_text, row_text, UniverseState};
use crate::topology::{lemma_around_within, Neighbourhood};
use vstd::prelude::*;

verus! {

/// Rows that an error describes are no grid.
pub proof fn lemma_error_means_no_grid(grid: Seq<Seq<CellState>>, error: ValidationError)
    requires
        error.describes(grid),
    ensures
        !UniverseState::at_start(grid).rectangular(),
{
    if grid.len() > 0 {
        assert(!(grid[error.row()].len() == grid[0].len() && grid[error.row()].len() > 0));
    }
}

/// A universe made from dimensions that are not zero has those dimensions,
/// is a torus, and holds only dead cells at baseline.
pub proof fn lemma_blank_universe(width: int, height: int)
    requires
        width > 0,
        height > 0,
    ensures
        UniverseState::blank(width, height).width() == width,
        UniverseState::blank(width, height).height() == height,
        UniverseState::blank(width, height).toroidal(),
        UniverseState::blank(width, height).paused,
        forall|x: int, y: int|
            0 <= x < width && 0 <= y < height ==> {
                let cell = #[trigger] UniverseState::blank(width, height).cell(x, y);
                &&& !cell.alive
                &&& cell.heat == HEAT_BASELINE
                &&& cell.ignore == 0
                &&& cell.wf()
            },
{
}

/// On a torus every cell knows its place and has its neighbours on the grid.
pub proof fn lemma_torus_is_coherent(state: UniverseState)
    requires
        state.toroidal(),
    ensures
        state.coherent(),
{
    assert forall|x: int, y: int| state.has(x, y) implies {
        let cell = #[trigger] state.cell(x, y);
        &&& cell.x == x
        &&& cell.y == y
        &&& cell.neighbours.within(state.width(), state.height())
    } by {
        lemma_around_within(state.width(), state.height(), x, y);
    }
}

/// Shape, coherence and the torus go with the places: a universe that has
/// the places of another is rectangular, coherent or a torus if that one is.
pub proof fn lemma_same_places(state: UniverseState, other: UniverseState)
    requires
        state.same_places(other),
    ensures
        other.width() == state.width(),
        other.height() == state.height(),
        forall|x: int, y: int| state.has(x, y) == other.has(x, y),
        state.rectangular() ==> other.rectangular(),
        state.coherent() ==> other.coherent(),
        state.toroidal() ==> other.toroidal(),
{
    if state.grid.len() > 0 {
        assert(state.grid[0].len() == other.grid[0].len());
    }
    assert forall|x: int, y: int| state.has(x, y) == other.has(x, y) by {
        if 0 <= y < state.grid.len() {
            assert(state.grid[y].len() == other.grid[y].len());
        }
    }
    if state.rectangular() {
        assert forall|y: int| 0 <= y < other.height() implies (#[trigger] other.grid[y]).len()
            == other.grid[0].len() && other.grid[y].len() > 0 by {
            assert(state.grid[y].len() == other.grid[y].len());
        }
    }
    if state.coherent() {
        assert forall|x: int, y: int| other.has(x, y) implies {
            let cell = #[trigger] other.cell(x, y);
            &&& cell.x == x
            &&& cell.y == y
            &&& cell.neighbours.within(other.width(), other.height())
        } by {
            let cell = state.cell(x, y);
        }
    }
    if state.toroidal() {
        assert forall|x: int, y: int| other.has(x, y) implies {
            let cell = #[trigger] other.cell(x, y);
            &&& cell.x == x
            &&& cell.y == y
            &&& cell.neighbours == Neighbourhood::around(other.width(), other.height(), x, y)
        } by {
            let cell = state.cell(x, y);
        }
    }
}

/// No operation moves a cell or changes its neighbours, and none changes the
/// shape of the grid.
pub proof fn lemma_operations_keep_places(
    state: UniverseState,
    x: int,
    y: int,
    alive: bool,
    budget: int,
)
    ensures
        state.same_places(state.tick()),
        state.same_places(state.reset()),
        state.same_places(state.pause()),
        state.has(x, y) ==> state.same_places(state.set_alive(x, y, alive, budget)),
        state.has(x, y) ==> state.same_places(state.increase_heat(x, y)),
        state.has(x, y) ==> state.same_places(state.decrease_heat(x, y)),
{
}

/// The heat of a cell that started at `heat` after `count` ticks without a
/// birth: down by the loss of each tick, but not below baseline.
pub open spec fn decayed(heat: int, count: nat) -> int {
    if count == 0 {
        heat
    } else if heat - count * HEAT_LOSS >= HEAT_BASELINE {
        heat - count * HEAT_LOSS
    } else {
        HEAT_BASELINE as int
    }
}

/// While the universe is paused, ticks change nothing but the heat: after
/// any number of them every cell is as alive as before and has its budget,
/// and its heat has decayed by that many steps towards baseline.
pub proof fn lemma_paused_ticks_freeze(state: UniverseState, count: nat)
    requires
        state.paused,
    ensures
        state.ticks(count).paused,
        state.same_places(state.ticks(count)),
        forall|x: int, y: int|
            state.has(x, y) ==> #[trigger] state.ticks(count).cell(x, y) == (CellState {
                heat: decayed(state.cell(x, y).heat, count),
                ..state.cell(x, y)
            }),
    decreases count,
{
    if count > 0 {
        let before = state.ticks((count - 1) as nat);
        lemma_paused_ticks_freeze(state, (count - 1) as nat);
        lemma_same_places(state, before);
        assert forall|x: int, y: int| state.has(x, y) implies #[trigger] before.tick().cell(x, y)
            == (CellState { heat: decayed(state.cell(x, y).heat, count), ..state.cell(x, y) }) by {
            assert(before.has(x, y));
            assert(before.cell(x, y) == (CellState {
                heat: decayed(state.cell(x, y).heat, (count - 1) as nat),
                ..state.cell(x, y)
            }));
        }
    }
}

/// Heat that decays never rises, and it rests at baseline once it has had
/// as many ticks as it was steps above it.
pub proof fn lemma_decay_reaches_baseline(heat: int, count: nat)
    requires
        heat >= HEAT_BASELINE,
    ensures
        HEAT_BASELINE <= decayed(heat, count) <= heat,
        decayed(heat, count + 1) <= decayed(heat, count),
        count * HEAT_LOSS >= heat - HEAT_BASELINE ==> decayed(heat, count) == HEAT_BASELINE,
{
}

/// Where the character for column `x` of row `y` stands in the text of a
/// grid of `width` columns; column `width` is the newline that ends the row.
pub open spec fn text_index(width: int, x: int, y: int) -> int {
    y * (width + 1) + x
}

/// The character that the text of `grid` shows for column `x` of row `y`.
pub open spec fn shown_at(grid: Seq<Seq<CellState>>, x: int, y: int) -> char {
    if x < grid[y].len() {
        glyph(grid[y][x].alive)
    } else {
        '\n'
    }
}

/// The layout of a summary: the text of a grid whose rows all hold `width`
/// cells is a block of lines of `width + 1` characters, a line for each row,
/// with the glyph of each cell in its column and a newline at the end.
pub proof fn lemma_text_layout(grid: Seq<Seq<CellState>>, width: int)
    requires
        width >= 0,
        forall|y: int| 0 <= y < grid.len() ==> (#[trigger] grid[y]).len() == width,
    ensures
        grid_text(grid).len() == grid.len() * (width + 1),
        forall|x: int, y: int|
            0 <= y < grid.len() && 0 <= x <= width ==> {
                let at = #[trigger] text_index(width, x, y);
                &&& 0 <= at < grid_text(grid).len()
                &&& grid_text(grid)[at] == shown_at(grid, x, y)
            },
    decreases grid.len(),
{
    if grid.len() > 0 {
        let rest = grid.drop_last();
        let last = grid.len() - 1;
        let head = grid_text(rest);
        let line = row_text(grid.last());
        lemma_text_layout(rest, width);
        assert(line.len() == width + 1);
        assert(last * (width + 1) + (width + 1) == grid.len() * (width + 1)) by (nonlinear_arith)
            requires
                last == grid.len() - 1,
        ;
        assert forall|x: int, y: int| 0 <= y < grid.len() && 0 <= x <= width implies {
            let at = #[trigger] text_index(width, x, y);
            &&& 0 <= at < grid_text(grid).len()
            &&& grid_text(grid)[at] == shown_at(grid, x, y)
        } by {
            let at = text_index(width, x, y);
            if y < last {
                assert(rest[y] == grid[y]);
                assert(0 <= at < head.len() && head[at] == shown_at(rest, x, y));
                assert(grid_text(grid)[at] == head[at]);
            } else {
                assert(at == head.len() + x);
                assert(grid_text(grid)[at] == line[x]);
            }
        }
    }
}

/// The summary of a rectangular universe holds a line for each row, and in
/// each line the glyph of each cell of the row, then a newline.
pub proof fn lemma_summary_layout(state: UniverseState)
    requires
        state.rectangular(),
    ensures
        state.summary().len() == state.height() * (state.width() + 1),
        forall|x: int, y: int|
            0 <= y < state.height() && 0 <= x <= state.width() ==> {
                let at = #[trigger] text_index(state.width(), x, y);
                &&& 0 <= at < state.summary().len()
                &&& state.summary()[at] == (if x < state.width() {
                    glyph(state.cell(x, y).alive)
                } else {
                    '\n'
                })
            },
{
    lemma_text_layout(state.grid, state.width());
    assert forall|x: int, y: int| 0 <= y < state.height() && 0 <= x <= state.width() implies {
        let at = #[trigger] text_index(state.width(), x, y);
        &&& 0 <= at < state.summary().len()
        &&& state.summary()[at] == (if x < state.width() {
            glyph(state.cell(x, y).alive)
        } else {
            '\n'
        })
    } by {
        assert(state.grid[y].len() == state.width());
    }
}

/// A line of a summary for a row of `width` dead cells.
pub open spec fn dead_line(width: nat) -> Seq<char> {
    Seq::new(width, |x: int| '.').push('\n')
}

/// After a reset every cell is dead, at baseline heat and without budget,
/// and the summary shows a line of dots for every row.
pub proof fn lemma_reset_summary(state: UniverseState)
    ensures
        state.reset().paused == state.paused,
        state.same_places(state.reset()),
        forall|x: int, y: int|
            state.has(x, y) ==> {
                let cell = #[trigger] state.reset().cell(x, y);
                &&& !cell.alive
                &&& cell.heat == HEAT_BASELINE
                &&& cell.ignore == 0
            },
        forall|y: int|
            0 <= y < state.grid.len() ==> row_text(#[trigger] state.reset().grid[y]) == dead_line(
                state.grid[y].len(),
            ),
        forall|k: int|
            0 <= k < state.reset().summary().len() ==> {
                let shown = #[trigger] state.reset().summary()[k];
                shown == '.' || shown == '\n'
            },
{
    let after = state.reset();
    assert forall|y: int| 0 <= y < state.grid.len() implies row_text(#[trigger] after.grid[y])
        == dead_line(state.grid[y].len()) by {
        assert(row_text(after.grid[y]) =~= dead_line(state.grid[y].len()));
    }
    lemma_dead_text(after.grid);
}

/// The text of a grid of dead cells holds nothing but dots and newlines.
proof fn lemma_dead_text(grid: Seq<Seq<CellState>>)
    requires
        forall|x: int, y: int|
            0 <= y < grid.len() && 0 <= x < grid[y].len() ==> !(#[trigger] grid[y][x]).alive,
    ensures
        forall|k: int|
            0 <= k < grid_text(grid).len() ==> {
                let shown = #[trigger] grid_text(grid)[k];
                shown == '.' || shown == '\n'
            },
    decreases grid.len(),
{
    if grid.len() > 0 {
        lemma_dead_text(grid.drop_last());
        let head = grid_text(grid.drop_last());
        let line = row_text(grid.last());
        assert forall|k: int| 0 <= k < grid_text(grid).len() implies {
            let shown = #[trigger] grid_text(grid)[k];
            shown == '.' || shown == '\n'
        } by {
            if k < head.len() {
                assert(grid_text(grid)[k] == head[k]);
            } else {
                let x = k - head.len();
                assert(grid_text(grid)[k] == line[x]);
                if x < grid.last().len() {
                    assert(!grid[grid.len() - 1][x].alive);
                }
            }
        }
    }
}

} // verus!
