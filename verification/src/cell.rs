//! A single cell: where it sits, whether it lives, how warm it is, and how
//! many requests to kill it it may still ignore.

use crate::topology::{fix_coords, Neighbourhood, Neighbours};
use vstd::prelude::*;

verus! {

/// Heat is kept in fixed point: this many stored steps make one whole unit.
pub const HEAT_SCALE: u32 = 2;

/// The resting heat, one whole unit, in stored steps.
pub const HEAT_BASELINE: u32 = 2;

/// The highest heat, a thousand whole units, in stored steps.
pub const HEAT_CEILING: u32 = 2000;

/// What a birth adds: two whole units, in stored steps.
pub const HEAT_GAIN: u32 = 4;

/// What every other tick takes away: half a unit, in stored steps.
pub const HEAT_LOSS: u32 = 1;

/// Width of the grid for which a default cell is made.
pub const DEFAULT_WIDTH: usize = 40;

/// Height of the grid for which a default cell is made.
pub const DEFAULT_HEIGHT: usize = 13;

/// The mathematical model of a [`Cell`].
pub struct CellState {
    /// Column.
    pub x: int,
    /// Row.
    pub y: int,
    /// Whether the cell lives.
    pub alive: bool,
    /// Heat in stored steps, see [`HEAT_SCALE`].
    pub heat: int,
    /// How many requests to die the cell may still ignore.
    pub ignore: int,
    /// The eight positions around the cell, fixed when it is made.
    pub neighbours: Neighbourhood,
}

impl CellState {
    /// The invariant of every cell: heat between baseline and ceiling, and a
    /// debounce budget that is not negative.
    pub open spec fn wf(self) -> bool {
        &&& HEAT_BASELINE <= self.heat <= HEAT_CEILING
        &&& self.ignore >= 0
    }

    /// A newly made cell of a `width` by `height` torus.
    pub open spec fn fresh(width: int, height: int, x: int, y: int, alive: bool) -> CellState {
        CellState {
            x,
            y,
            alive,
            heat: HEAT_BASELINE as int,
            ignore: 0,
            neighbours: Neighbourhood::around(width, height, x, y),
        }
    }

    /// Whether a request for `alive` is held off: only a request to die, of a
    /// living cell, while budget is left.
    pub open spec fn suppresses(self, alive: bool) -> bool {
        !alive && self.alive && self.ignore > 0
    }

    /// The cell after a request to be `alive`, with `budget` as the debounce
    /// budget to start from if the request takes effect.
    pub open spec fn set_alive(self, alive: bool, budget: int) -> CellState {
        if self.suppresses(alive) {
            CellState { ignore: self.ignore - 1, ..self }
        } else {
            CellState { alive, ignore: budget, ..self }
        }
    }

    /// The cell after a birth has warmed it.
    pub open spec fn warmed(self) -> CellState {
        CellState {
            heat: if self.heat + HEAT_GAIN <= HEAT_CEILING {
                self.heat + HEAT_GAIN
            } else {
                HEAT_CEILING as int
            },
            ..self
        }
    }

    /// The cell after a tick without a birth has cooled it.
    pub open spec fn cooled(self) -> CellState {
        CellState {
            heat: if self.heat - HEAT_LOSS >= HEAT_BASELINE {
                self.heat - HEAT_LOSS
            } else {
                HEAT_BASELINE as int
            },
            ..self
        }
    }

    /// What Conway's rules ask of the cell when `live` of its neighbours are
    /// alive: a living cell with fewer than two or more than three living
    /// neighbours is asked to die, a dead cell with exactly three is asked to
    /// live, and nothing is asked of any other cell. Each request is made
    /// with an empty budget, and a request to die may be held off.
    pub open spec fn ruled(self, live: nat) -> CellState {
        if self.alive && (live < 2 || live > 3) {
            self.set_alive(false, 0)
        } else if !self.alive && live == 3 {
            self.set_alive(true, 0)
        } else {
            self
        }
    }

    /// The cell one tick later, when `live` of its neighbours were alive
    /// before the tick. While paused the rules are skipped. The heat moves
    /// either way: up if the cell was born in this tick, down otherwise.
    pub open spec fn step(self, live: nat, paused: bool) -> CellState {
        let next = if paused {
            self
        } else {
            self.ruled(live)
        };
        if !self.alive && next.alive {
            next.warmed()
        } else {
            next.cooled()
        }
    }

    /// The cell put back to its baseline; place and neighbours stay.
    pub open spec fn reset(self) -> CellState {
        CellState { alive: false, heat: HEAT_BASELINE as int, ignore: 0, ..self }
    }

    /// The cell after `count` requests to die in a row, each made with
    /// `budget`.
    pub open spec fn asked_to_die(self, count: nat, budget: int) -> CellState
        decreases count,
    {
        if count == 0 {
            self
        } else {
            self.asked_to_die((count - 1) as nat, budget).set_alive(false, budget)
        }
    }
}

/// Every operation keeps the invariant of a cell, as long as no negative
/// budget is handed in.
pub proof fn lemma_cell_stays_valid(cell: CellState, alive: bool, budget: int, live: nat, paused: bool)
    requires
        cell.wf(),
        budget >= 0,
    ensures
        cell.set_alive(alive, budget).wf(),
        cell.warmed().wf(),
        cell.cooled().wf(),
        cell.reset().wf(),
        cell.step(live, paused).wf(),
{
}

/// A tick moves the heat of a cell in one of two ways and touches neither
/// its place nor its neighbours: a cell that was dead and is alive gains
/// heat, capped at the ceiling; every other cell loses heat, down to
/// baseline at most.
pub proof fn lemma_step_moves_heat_once(cell: CellState, live: nat, paused: bool)
    ensures
        cell.step(live, paused).x == cell.x,
        cell.step(live, paused).y == cell.y,
        cell.step(live, paused).neighbours == cell.neighbours,
        !cell.alive && cell.step(live, paused).alive ==> cell.step(live, paused).heat
            == cell.warmed().heat,
        cell.alive || !cell.step(live, paused).alive ==> cell.step(live, paused).heat
            == cell.cooled().heat,
        paused ==> cell.step(live, paused).alive == cell.alive && cell.step(live, paused).ignore
            == cell.ignore,
{
}

/// The budget is spent only by a request to die that a living cell holds
/// off: then the cell stays alive and pays one unit. Any other request takes
/// effect and leaves the budget handed in.
pub proof fn lemma_budget_is_spent_on_deaths(cell: CellState, alive: bool, budget: int)
    ensures
        cell.suppresses(alive) ==> cell.set_alive(alive, budget) == (CellState {
            ignore: cell.ignore - 1,
            ..cell
        }),
        !cell.suppresses(alive) ==> cell.set_alive(alive, budget) == (CellState {
            alive,
            ignore: budget,
            ..cell
        }),
{
}

/// Debounce: a living cell with a budget of `cell.ignore` stays alive
/// through that many requests to die, paying one unit for each, and the
/// next request kills it and leaves it the budget handed in.
pub proof fn lemma_debounce(cell: CellState, count: nat, budget: int)
    requires
        cell.alive,
        cell.ignore >= 0,
    ensures
        count <= cell.ignore ==> cell.asked_to_die(count, budget) == (CellState {
            ignore: cell.ignore - count,
            ..cell
        }),
        count == cell.ignore + 1 ==> cell.asked_to_die(count, budget) == (CellState {
            alive: false,
            ignore: budget,
            ..cell
        }),
    decreases count,
{
    if count > 0 {
        lemma_debounce(cell, (count - 1) as nat, budget);
    }
}

/// One cell of the grid.
#[derive(Clone, Copy, Debug)]
pub struct Cell {
    x: usize,
    y: usize,
    alive: bool,
    neighbours: Neighbours,
    ignore: i64,
    heat: u32,
}

impl View for Cell {
    type V = CellState;

    closed spec fn view(&self) -> CellState {
        CellState {
            x: self.x as int,
            y: self.y as int,
            alive: self.alive,
            heat: self.heat as int,
            ignore: self.ignore as int,
            neighbours: self.neighbours@,
        }
    }
}

impl Cell {
    #[verifier::type_invariant]
    spec fn inv(self) -> bool {
        self@.wf()
    }

    /// Makes the cell at column `x`, row `y` of a `width` by `height` torus,
    /// at baseline heat and with no debounce budget. The neighbours are
    /// worked out in signed 64-bit numbers, so `x` and `y` must leave room for
    /// one step up.
    pub fn new(width: usize, height: usize, x: usize, y: usize, alive: bool) -> (cell: Self)
        requires
            width > 0,
            height > 0,
            x < i64::MAX,
            y < i64::MAX,
        ensures
            cell@ == CellState::fresh(width as int, height as int, x as int, y as int, alive),
            cell@.wf(),
    {
        let x1: i64 = x as i64;
        let y1: i64 = y as i64;

        let neighbours = Neighbours {
            top: fix_coords(width, height, (x1, y1 - 1)),
            bottom: fix_coords(width, height, (x1, y1 + 1)),
            left: fix_coords(width, height, (x1 - 1, y1)),
            right: fix_coords(width, height, (x1 + 1, y1)),
            top_left: fix_coords(width, height, (x1 - 1, y1 - 1)),
            top_right: fix_coords(width, height, (x1 + 1, y1 - 1)),
            bottom_left: fix_coords(width, height, (x1 - 1, y1 + 1)),
            bottom_right: fix_coords(width, height, (x1 + 1, y1 + 1)),
        };

        Self { x, y, alive, neighbours, ignore: 0, heat: HEAT_BASELINE }
    }

    /// Column and row of the cell.
    pub fn coords(&self) -> (at: (usize, usize))
        ensures
            at.0 as int == self@.x,
            at.1 as int == self@.y,
    {
        (self.x, self.y)
    }

    /// Warms the cell by [`HEAT_GAIN`], up to [`HEAT_CEILING`].
    pub fn increase_heat(&mut self)
        ensures
            final(self)@ == old(self)@.warmed(),
            final(self)@.wf(),
    {
        proof {
            use_type_invariant(&*self);
        }
        if self.heat < HEAT_CEILING - HEAT_GAIN {
            self.heat += HEAT_GAIN;
        } else {
            self.heat = HEAT_CEILING;
        }
    }

    /// Cools the cell by [`HEAT_LOSS`], down to [`HEAT_BASELINE`].
    pub fn decrease_heat(&mut self)
        ensures
            final(self)@ == old(self)@.cooled(),
            final(self)@.wf(),
    {
        proof {
            use_type_invariant(&*self);
        }
        if self.heat > HEAT_BASELINE {
            self.heat -= HEAT_LOSS;
        }
    }

    /// The heat in stored steps: divide by [`HEAT_SCALE`] for whole units.
    pub fn heat(&self) -> (heat: u32)
        ensures
            heat as int == self@.heat,
            HEAT_BASELINE <= heat <= HEAT_CEILING,
    {
        proof {
            use_type_invariant(self);
        }
        self.heat
    }

    /// Whether the cell is alive.
    pub fn alive(&self) -> (alive: bool)
        ensures
            alive == self@.alive,
    {
        self.alive
    }

    /// The debounce budget that is left.
    pub fn ignore(&self) -> (ignore: i64)
        ensures
            ignore as int == self@.ignore,
            ignore >= 0,
    {
        proof {
            use_type_invariant(self);
        }
        self.ignore
    }

    /// Asks the cell to be `alive`. A living cell with budget left ignores a
    /// request to die and pays one unit of budget for it; every other request
    /// takes effect and sets the budget to `ignore`.
    pub fn set_alive(&mut self, alive: bool, ignore: i64)
        requires
            ignore >= 0,
        ensures
            final(self)@ == old(self)@.set_alive(alive, ignore as int),
            final(self)@.wf(),
    {
        proof {
            use_type_invariant(&*self);
        }
        if !alive && self.alive && self.ignore > 0 {
            self.ignore -= 1;
            return;
        }
        self.ignore = ignore;

        self.alive = alive;
    }

    /// Puts the cell back to baseline: dead, resting heat, no budget.
    pub fn reset(&mut self)
        ensures
            final(self)@ == old(self)@.reset(),
            final(self)@.wf(),
    {
        proof {
            use_type_invariant(&*self);
        }
        self.alive = false;
        self.ignore = 0;
        self.heat = HEAT_BASELINE;
    }

    /// The stored neighbour positions.
    pub fn neighbours(self) -> (neighbours: Neighbours)
        ensures
            neighbours@ == self@.neighbours,
    {
        self.neighbours
    }
}

impl Default for Cell {
    /// The top left cell, dead, of a grid of the default size.
    fn default() -> (cell: Self)
        ensures
            cell@ == CellState::fresh(DEFAULT_WIDTH as int, DEFAULT_HEIGHT as int, 0, 0, false),
    {
        Self::new(DEFAULT_WIDTH, DEFAULT_HEIGHT, 0, 0, false)
    }
}

} // verus!
