//! Two patterns of the game on a torus: the block, which stands still, and
//! the blinker, which turns a quarter with every tick.

use crate::cell::CellState;
use crate::laws::{decayed, lemma_operations_keep_places, lemma_same_places};
use crate::state::{tally, UniverseState};
use crate::topology::{lemma_around_within, on_grid, wrap_axis, Neighbourhood};
use vstd::prelude::*;

verus! {

/// Counting the living cells among `spots` and one more spot counts that
/// spot on top.
pub proof fn lemma_live_among_push(state: UniverseState, spots: Seq<(int, int)>, spot: (int, int))
    ensures
        state.live_among(spots.push(spot)) == state.live_among(spots) + tally(state.alive_at(spot)),
{
    assert(spots.push(spot).drop_last() =~= spots);
    assert(spots.push(spot).last() == spot);
}

/// The living neighbours of a cell are counted spot by spot, so there are
/// at most eight of them.
pub proof fn lemma_live_neighbours_by_spot(state: UniverseState, x: int, y: int)
    ensures
        state.live_neighbours(x, y) == {
            let around = state.cell(x, y).neighbours;
            tally(state.alive_at(around.top)) + tally(state.alive_at(around.bottom)) + tally(
                state.alive_at(around.left),
            ) + tally(state.alive_at(around.right)) + tally(state.alive_at(around.top_left))
                + tally(state.alive_at(around.top_right)) + tally(
                state.alive_at(around.bottom_left),
            ) + tally(state.alive_at(around.bottom_right))
        },
        state.live_neighbours(x, y) <= 8,
{
    let around = state.cell(x, y).neighbours;
    let none = Seq::<(int, int)>::empty();
    let one = none.push(around.top);
    let two = one.push(around.bottom);
    let three = two.push(around.left);
    let four = three.push(around.right);
    let five = four.push(around.top_left);
    let six = five.push(around.top_right);
    let seven = six.push(around.bottom_left);
    let eight = seven.push(around.bottom_right);
    assert(state.live_among(none) == 0);
    lemma_live_among_push(state, none, around.top);
    lemma_live_among_push(state, one, around.bottom);
    lemma_live_among_push(state, two, around.left);
    lemma_live_among_push(state, three, around.right);
    lemma_live_among_push(state, four, around.top_left);
    lemma_live_among_push(state, five, around.top_right);
    lemma_live_among_push(state, six, around.bottom_left);
    lemma_live_among_push(state, seven, around.bottom_right);
    assert(around.spots() =~= eight);
}

/// Whether `spot` is one of the four cells of the block whose top left cell
/// is `(x, y)`. The block may reach over an edge of the grid.
pub open spec fn in_block(width: int, height: int, x: int, y: int, spot: (int, int)) -> bool {
    &&& spot.0 == x || spot.0 == wrap_axis(width, x + 1)
    &&& spot.1 == y || spot.1 == wrap_axis(height, y + 1)
}

/// Whether `spot` is one of the three cells of the row of three whose middle
/// is `(x, y)`.
pub open spec fn in_bar(width: int, x: int, y: int, spot: (int, int)) -> bool {
    &&& spot.1 == y
    &&& spot.0 == wrap_axis(width, x - 1) || spot.0 == x || spot.0 == wrap_axis(width, x + 1)
}

/// Whether `spot` is one of the three cells of the column of three whose
/// middle is `(x, y)`.
pub open spec fn in_post(height: int, x: int, y: int, spot: (int, int)) -> bool {
    &&& spot.0 == x
    &&& spot.1 == wrap_axis(height, y - 1) || spot.1 == y || spot.1 == wrap_axis(height, y + 1)
}

impl UniverseState {
    /// Whether the living cells are those of the block at `(x, y)` and no
    /// others.
    pub open spec fn shows_block(self, x: int, y: int) -> bool {
        forall|cx: int, cy: int|
            self.has(cx, cy) ==> (#[trigger] self.cell(cx, cy)).alive == in_block(
                self.width(),
                self.height(),
                x,
                y,
                (cx, cy),
            )
    }

    /// Whether the living cells are those of the row of three around
    /// `(x, y)` and no others.
    pub open spec fn shows_bar(self, x: int, y: int) -> bool {
        forall|cx: int, cy: int|
            self.has(cx, cy) ==> (#[trigger] self.cell(cx, cy)).alive == in_bar(
                self.width(),
                x,
                y,
                (cx, cy),
            )
    }

    /// Whether the living cells are those of the column of three around
    /// `(x, y)` and no others.
    pub open spec fn shows_post(self, x: int, y: int) -> bool {
        forall|cx: int, cy: int|
            self.has(cx, cy) ==> (#[trigger] self.cell(cx, cy)).alive == in_post(
                self.height(),
                x,
                y,
                (cx, cy),
            )
    }
}

/// How many of the eight spots of `around` are marked.
pub open spec fn count_marked(around: Neighbourhood, marked: spec_fn((int, int)) -> bool) -> nat {
    tally(marked(around.top)) + tally(marked(around.bottom)) + tally(marked(around.left)) + tally(
        marked(around.right),
    ) + tally(marked(around.top_left)) + tally(marked(around.top_right)) + tally(
        marked(around.bottom_left),
    ) + tally(marked(around.bottom_right))
}

/// On a torus on which the marked cells live and no others, the living
/// neighbours of a cell are the marked spots around it.
pub proof fn lemma_living_are_marked(
    state: UniverseState,
    marked: spec_fn((int, int)) -> bool,
    x: int,
    y: int,
)
    requires
        state.toroidal(),
        state.has(x, y),
        forall|cx: int, cy: int|
            state.has(cx, cy) ==> (#[trigger] state.cell(cx, cy)).alive == marked((cx, cy)),
    ensures
        state.live_neighbours(x, y) == count_marked(
            Neighbourhood::around(state.width(), state.height(), x, y),
            marked,
        ),
{
    let around = Neighbourhood::around(state.width(), state.height(), x, y);
    lemma_live_neighbours_by_spot(state, x, y);
    lemma_around_within(state.width(), state.height(), x, y);
    assert(state.cell(x, y).neighbours == around);
    lemma_alive_where_marked(state, marked, around.top);
    lemma_alive_where_marked(state, marked, around.bottom);
    lemma_alive_where_marked(state, marked, around.left);
    lemma_alive_where_marked(state, marked, around.right);
    lemma_alive_where_marked(state, marked, around.top_left);
    lemma_alive_where_marked(state, marked, around.top_right);
    lemma_alive_where_marked(state, marked, around.bottom_left);
    lemma_alive_where_marked(state, marked, around.bottom_right);
}

proof fn lemma_alive_where_marked(
    state: UniverseState,
    marked: spec_fn((int, int)) -> bool,
    spot: (int, int),
)
    requires
        state.rectangular(),
        on_grid(state.width(), state.height(), spot),
        forall|cx: int, cy: int|
            state.has(cx, cy) ==> (#[trigger] state.cell(cx, cy)).alive == marked((cx, cy)),
    ensures
        state.alive_at(spot) == marked(spot),
{
    assert(state.grid[spot.1].len() == state.width());
    assert(state.has(spot.0, spot.1));
    assert(state.cell(spot.0, spot.1).alive == marked((spot.0, spot.1)));
}

/// Around a cell of the block lie the three other cells of the block, and
/// around any other cell at most two cells of it.
proof fn lemma_block_count(width: int, height: int, x: int, y: int, cx: int, cy: int)
    requires
        width >= 4,
        height >= 4,
        on_grid(width, height, (x, y)),
        on_grid(width, height, (cx, cy)),
    ensures
        ({
            let count = count_marked(
                Neighbourhood::around(width, height, cx, cy),
                |spot: (int, int)| in_block(width, height, x, y, spot),
            );
            if in_block(width, height, x, y, (cx, cy)) {
                count == 3
            } else {
                count <= 2
            }
        }),
{
}

impl UniverseState {
    /// Whether the universe is a running torus of at least four columns and
    /// four rows that shows the block at `(x, y)`.
    pub open spec fn holds_block(self, x: int, y: int) -> bool {
        &&& self.toroidal()
        &&& self.width() >= 4
        &&& self.height() >= 4
        &&& !self.paused
        &&& self.has(x, y)
        &&& self.shows_block(x, y)
    }
}

/// Still life: on a running torus of at least four columns and four rows a
/// block of two by two living cells, wherever it lies, stays as it is. No
/// cell is born and none dies; all that a tick does is cool every cell.
pub proof fn lemma_block_is_still(state: UniverseState, x: int, y: int)
    requires
        state.holds_block(x, y),
    ensures
        state.tick().holds_block(x, y),
        forall|cx: int, cy: int|
            state.has(cx, cy) ==> #[trigger] state.tick().cell(cx, cy) == state.cell(cx, cy).cooled(),
{
    let width = state.width();
    let height = state.height();
    lemma_operations_keep_places(state, 0, 0, false, 0);
    lemma_same_places(state, state.tick());
    assert(state.grid[y].len() == width);
    assert forall|cx: int, cy: int| state.has(cx, cy) implies #[trigger] state.tick().cell(cx, cy)
        == state.cell(cx, cy).cooled() by {
        assert(state.grid[cy].len() == width);
        lemma_living_are_marked(
            state,
            |spot: (int, int)| in_block(width, height, x, y, spot),
            cx,
            cy,
        );
        lemma_block_count(width, height, x, y, cx, cy);
    }
}

/// Still life, for any number of ticks: the block stays, and every cell is
/// as it was but for its heat, which has decayed by that many steps.
pub proof fn lemma_block_stays(state: UniverseState, x: int, y: int, count: nat)
    requires
        state.holds_block(x, y),
    ensures
        state.ticks(count).holds_block(x, y),
        state.same_places(state.ticks(count)),
        forall|cx: int, cy: int|
            state.has(cx, cy) ==> #[trigger] state.ticks(count).cell(cx, cy) == (CellState {
                heat: decayed(state.cell(cx, cy).heat, count),
                ..state.cell(cx, cy)
            }),
    decreases count,
{
    if count > 0 {
        let before = state.ticks((count - 1) as nat);
        lemma_block_stays(state, x, y, (count - 1) as nat);
        lemma_block_is_still(before, x, y);
        lemma_same_places(state, before);
        lemma_operations_keep_places(before, 0, 0, false, 0);
        assert forall|cx: int, cy: int| state.has(cx, cy) implies #[trigger] before.tick().cell(
            cx,
            cy,
        ) == (CellState { heat: decayed(state.cell(cx, cy).heat, count), ..state.cell(cx, cy) }) by {
            assert(before.has(cx, cy));
            assert(before.cell(cx, cy) == (CellState {
                heat: decayed(state.cell(cx, cy).heat, (count - 1) as nat),
                ..state.cell(cx, cy)
            }));
        }
    }
}

/// Around the cells of a row of three and above and below its middle lie
/// two, one or three of its cells; around no other cell lie three.
proof fn lemma_bar_count(width: int, height: int, x: int, y: int, cx: int, cy: int)
    requires
        width >= 5,
        height >= 5,
        on_grid(width, height, (x, y)),
        on_grid(width, height, (cx, cy)),
    ensures
        ({
            let count = count_marked(
                Neighbourhood::around(width, height, cx, cy),
                |spot: (int, int)| in_bar(width, x, y, spot),
            );
            &&& cx == x && cy == y ==> count == 2
            &&& in_bar(width, x, y, (cx, cy)) && cx != x ==> count == 1
            &&& in_post(height, x, y, (cx, cy)) && cy != y ==> count == 3
            &&& !in_bar(width, x, y, (cx, cy)) && !in_post(height, x, y, (cx, cy)) ==> count != 3
        }),
{
}

/// Around the cells of a column of three and left and right of its middle
/// lie two, one or three of its cells; around no other cell lie three.
proof fn lemma_post_count(width: int, height: int, x: int, y: int, cx: int, cy: int)
    requires
        width >= 5,
        height >= 5,
        on_grid(width, height, (x, y)),
        on_grid(width, height, (cx, cy)),
    ensures
        ({
            let count = count_marked(
                Neighbourhood::around(width, height, cx, cy),
                |spot: (int, int)| in_post(height, x, y, spot),
            );
            &&& cx == x && cy == y ==> count == 2
            &&& in_post(height, x, y, (cx, cy)) && cy != y ==> count == 1
            &&& in_bar(width, x, y, (cx, cy)) && cx != x ==> count == 3
            &&& !in_bar(width, x, y, (cx, cy)) && !in_post(height, x, y, (cx, cy)) ==> count != 3
        }),
{
}

impl UniverseState {
    /// Whether the universe is a running torus of at least five columns and
    /// five rows that shows the row of three around `(x, y)`, with no budget
    /// left at its two ends to hold off their death.
    pub open spec fn blinks_flat(self, x: int, y: int) -> bool {
        &&& self.toroidal()
        &&& self.width() >= 5
        &&& self.height() >= 5
        &&& !self.paused
        &&& self.has(x, y)
        &&& self.shows_bar(x, y)
        &&& self.cell(wrap_axis(self.width(), x - 1), y).ignore <= 0
        &&& self.cell(wrap_axis(self.width(), x + 1), y).ignore <= 0
    }

    /// Whether the universe is a running torus of at least five columns and
    /// five rows that shows the column of three around `(x, y)`, with no
    /// budget left at its two ends to hold off their death.
    pub open spec fn blinks_upright(self, x: int, y: int) -> bool {
        &&& self.toroidal()
        &&& self.width() >= 5
        &&& self.height() >= 5
        &&& !self.paused
        &&& self.has(x, y)
        &&& self.shows_post(x, y)
        &&& self.cell(x, wrap_axis(self.height(), y - 1)).ignore <= 0
        &&& self.cell(x, wrap_axis(self.height(), y + 1)).ignore <= 0
    }
}

/// Oscillator, first half: a tick turns a row of three into the column of
/// three through its middle. The two ends die, the cells above and below
/// the middle are born, and the middle lives on.
pub proof fn lemma_bar_turns_upright(state: UniverseState, x: int, y: int)
    requires
        state.blinks_flat(x, y),
    ensures
        state.tick().blinks_upright(x, y),
{
    let width = state.width();
    let height = state.height();
    let after = state.tick();
    lemma_operations_keep_places(state, 0, 0, false, 0);
    lemma_same_places(state, after);
    assert(state.grid[y].len() == width);
    assert forall|cx: int, cy: int| after.has(cx, cy) implies (#[trigger] after.cell(cx, cy)).alive
        == in_post(height, x, y, (cx, cy)) && (in_post(height, x, y, (cx, cy)) && cy != y
        ==> after.cell(cx, cy).ignore == 0) by {
        assert(state.grid[cy].len() == width);
        assert(state.has(cx, cy));
        lemma_living_are_marked(state, |spot: (int, int)| in_bar(width, x, y, spot), cx, cy);
        lemma_bar_count(width, height, x, y, cx, cy);
    }
    assert(after.has(x, wrap_axis(height, y - 1)));
    assert(after.has(x, wrap_axis(height, y + 1)));
}

/// Oscillator, second half: a tick turns a column of three into the row of
/// three through its middle.
pub proof fn lemma_post_turns_flat(state: UniverseState, x: int, y: int)
    requires
        state.blinks_upright(x, y),
    ensures
        state.tick().blinks_flat(x, y),
{
    let width = state.width();
    let height = state.height();
    let after = state.tick();
    lemma_operations_keep_places(state, 0, 0, false, 0);
    lemma_same_places(state, after);
    assert(state.grid[y].len() == width);
    assert forall|cx: int, cy: int| after.has(cx, cy) implies (#[trigger] after.cell(cx, cy)).alive
        == in_bar(width, x, y, (cx, cy)) && (in_bar(width, x, y, (cx, cy)) && cx != x
        ==> after.cell(cx, cy).ignore == 0) by {
        assert(state.grid[cy].len() == width);
        assert(state.has(cx, cy));
        lemma_living_are_marked(state, |spot: (int, int)| in_post(height, x, y, spot), cx, cy);
        lemma_post_count(width, height, x, y, cx, cy);
    }
    assert(after.has(wrap_axis(width, x - 1), y));
    assert(after.has(wrap_axis(width, x + 1), y));
}

/// Oscillator: a row of three goes on turning for ever. After an even
/// number of ticks it lies flat as at first, after an odd number it stands
/// upright.
pub proof fn lemma_blinker_alternates(state: UniverseState, x: int, y: int, count: nat)
    requires
        state.blinks_flat(x, y),
    ensures
        count % 2 == 0 ==> state.ticks(count).blinks_flat(x, y),
        count % 2 == 1 ==> state.ticks(count).blinks_upright(x, y),
    decreases count,
{
    if count > 0 {
        let before = state.ticks((count - 1) as nat);
        lemma_blinker_alternates(state, x, y, (count - 1) as nat);
        if count % 2 == 0 {
            lemma_post_turns_flat(before, x, y);
        } else {
            lemma_bar_turns_upright(before, x, y);
        }
    }
}

} // verus!
