//! Neighbour topology of a grid whose opposite edges meet.

use vstd::prelude::*;

verus! {

/// Where the value `v` lands on an axis of `extent` positions whose two ends
/// meet: a value below the axis lands on its last position, a value beyond it
/// on its first, and a value on the axis stays where it is.
pub open spec fn wrap_axis(extent: int, v: int) -> int {
    if v < 0 {
        extent - 1
    } else if v >= extent {
        0
    } else {
        v
    }
}

/// Both axes of a `width` by `height` grid wrapped at once; a pair is `(x, y)`.
pub open spec fn wrap_coords(width: int, height: int, coords: (int, int)) -> (int, int) {
    (wrap_axis(width, coords.0), wrap_axis(height, coords.1))
}

/// Whether `spot` names a position of a `width` by `height` grid.
pub open spec fn on_grid(width: int, height: int, spot: (int, int)) -> bool {
    0 <= spot.0 < width && 0 <= spot.1 < height
}

fn fix_axis(extent: usize, v: i64) -> (fixed: usize)
    requires
        extent > 0,
    ensures
        fixed as int == wrap_axis(extent as int, v as int),
{
    if v < 0 {
        extent - 1
    } else if v as u64 >= extent as u64 {
        0
    } else {
        v as usize
    }
}

/// Wraps a pair of signed coordinates onto a `width` by `height` grid.
pub fn fix_coords(width: usize, height: usize, coords: (i64, i64)) -> (fixed: (usize, usize))
    requires
        width > 0,
        height > 0,
    ensures
        (fixed.0 as int, fixed.1 as int) == wrap_coords(
            width as int,
            height as int,
            (coords.0 as int, coords.1 as int),
        ),
        on_grid(width as int, height as int, (fixed.0 as int, fixed.1 as int)),
{
    (fix_axis(width, coords.0), fix_axis(height, coords.1))
}

/// A wrapped value is always a position of the axis.
pub proof fn lemma_wrap_on_axis(extent: int, v: int)
    requires
        extent > 0,
    ensures
        0 <= wrap_axis(extent, v) < extent,
{
}

/// One step off either end of the axis wraps as the remainder does: the
/// topology is that of a ring.
pub proof fn lemma_wrap_is_remainder(extent: int, v: int)
    requires
        extent > 0,
        -1 <= v <= extent,
    ensures
        wrap_axis(extent, v) == v % extent,
{
    if v < 0 {
        assert((-1int) % extent == extent - 1) by (nonlinear_arith)
            requires
                extent > 0,
        ;
    } else if v >= extent {
        assert(extent % extent == 0) by (nonlinear_arith)
            requires
                extent > 0,
        ;
    } else {
        assert(v % extent == v) by (nonlinear_arith)
            requires
                0 <= v < extent,
        ;
    }
}

/// The eight positions around a cell, as stored with it; each pair is `(x, y)`.
#[derive(Clone, Copy, Debug)]
pub struct Neighbours {
    pub top: (usize, usize),
    pub bottom: (usize, usize),
    pub left: (usize, usize),
    pub right: (usize, usize),
    pub top_left: (usize, usize),
    pub top_right: (usize, usize),
    pub bottom_left: (usize, usize),
    pub bottom_right: (usize, usize),
}

/// The mathematical model of [`Neighbours`]: eight pairs of integers.
pub struct Neighbourhood {
    pub top: (int, int),
    pub bottom: (int, int),
    pub left: (int, int),
    pub right: (int, int),
    pub top_left: (int, int),
    pub top_right: (int, int),
    pub bottom_left: (int, int),
    pub bottom_right: (int, int),
}

/// A stored pair read as a pair of integers.
pub open spec fn spot_of(pair: (usize, usize)) -> (int, int) {
    (pair.0 as int, pair.1 as int)
}

impl Neighbourhood {
    /// The neighbourhood of `(x, y)` on a `width` by `height` torus: the eight
    /// offsets by at most one step on each axis, each wrapped onto the grid.
    /// Rows are counted downwards, so `top` is the row before `y`.
    pub open spec fn around(width: int, height: int, x: int, y: int) -> Neighbourhood {
        Neighbourhood {
            top: wrap_coords(width, height, (x, y - 1)),
            bottom: wrap_coords(width, height, (x, y + 1)),
            left: wrap_coords(width, height, (x - 1, y)),
            right: wrap_coords(width, height, (x + 1, y)),
            top_left: wrap_coords(width, height, (x - 1, y - 1)),
            top_right: wrap_coords(width, height, (x + 1, y - 1)),
            bottom_left: wrap_coords(width, height, (x - 1, y + 1)),
            bottom_right: wrap_coords(width, height, (x + 1, y + 1)),
        }
    }

    /// The eight positions in the order in which they are visited.
    pub open spec fn spots(self) -> Seq<(int, int)> {
        seq![
            self.top,
            self.bottom,
            self.left,
            self.right,
            self.top_left,
            self.top_right,
            self.bottom_left,
            self.bottom_right,
        ]
    }

    /// Whether all eight positions lie on a `width` by `height` grid.
    pub open spec fn within(self, width: int, height: int) -> bool {
        &&& on_grid(width, height, self.top)
        &&& on_grid(width, height, self.bottom)
        &&& on_grid(width, height, self.left)
        &&& on_grid(width, height, self.right)
        &&& on_grid(width, height, self.top_left)
        &&& on_grid(width, height, self.top_right)
        &&& on_grid(width, height, self.bottom_left)
        &&& on_grid(width, height, self.bottom_right)
    }
}

impl View for Neighbours {
    type V = Neighbourhood;

    open spec fn view(&self) -> Neighbourhood {
        Neighbourhood {
            top: spot_of(self.top),
            bottom: spot_of(self.bottom),
            left: spot_of(self.left),
            right: spot_of(self.right),
            top_left: spot_of(self.top_left),
            top_right: spot_of(self.top_right),
            bottom_left: spot_of(self.bottom_left),
            bottom_right: spot_of(self.bottom_right),
        }
    }
}

impl Neighbours {
    /// The eight stored pairs in visiting order.
    pub open spec fn to_seq(self) -> Seq<(usize, usize)> {
        seq![
            self.top,
            self.bottom,
            self.left,
            self.right,
            self.top_left,
            self.top_right,
            self.bottom_left,
            self.bottom_right,
        ]
    }

    /// Whether all eight positions lie on a `width` by `height` grid.
    pub fn within(&self, width: usize, height: usize) -> (within: bool)
        ensures
            within == self@.within(width as int, height as int),
    {
        self.top.0 < width && self.top.1 < height && self.bottom.0 < width && self.bottom.1
            < height && self.left.0 < width && self.left.1 < height && self.right.0 < width
            && self.right.1 < height && self.top_left.0 < width && self.top_left.1 < height
            && self.top_right.0 < width && self.top_right.1 < height && self.bottom_left.0 < width
            && self.bottom_left.1 < height && self.bottom_right.0 < width && self.bottom_right.1
            < height
    }

    /// The eight positions as a vector: top, bottom, left, right, then the
    /// four corners, top ones first and left before right.
    pub fn to_vec(self) -> (spots: Vec<(usize, usize)>)
        ensures
            spots@ == self.to_seq(),
            spots@.len() == 8,
            forall|i: int| 0 <= i < 8 ==> spot_of(#[trigger] spots@[i]) == self@.spots()[i],
    {
        let spots = vec![
            self.top,
            self.bottom,
            self.left,
            self.right,
            self.top_left,
            self.top_right,
            self.bottom_left,
            self.bottom_right,
        ];
        spots
    }
}

/// A neighbourhood that lies within a grid has each of its eight spots on it.
pub proof fn lemma_spots_within(around: Neighbourhood, width: int, height: int)
    requires
        around.within(width, height),
    ensures
        around.spots().len() == 8,
        forall|k: int| 0 <= k < 8 ==> on_grid(width, height, #[trigger] around.spots()[k]),
{
}

/// On any grid with at least one cell, every neighbour of every coordinate
/// pair is a position of the grid.
pub proof fn lemma_around_within(width: int, height: int, x: int, y: int)
    requires
        width > 0,
        height > 0,
    ensures
        Neighbourhood::around(width, height, x, y).within(width, height),
{
}

/// The neighbours of a cell of the grid are the eight offsets by at most one
/// step on each axis, taken modulo the width and the height.
pub proof fn lemma_around_is_modular(width: int, height: int, x: int, y: int)
    requires
        width > 0,
        height > 0,
        on_grid(width, height, (x, y)),
    ensures
        ({
            let around = Neighbourhood::around(width, height, x, y);
            &&& around.top == (x % width, (y - 1) % height)
            &&& around.bottom == (x % width, (y + 1) % height)
            &&& around.left == ((x - 1) % width, y % height)
            &&& around.right == ((x + 1) % width, y % height)
            &&& around.top_left == ((x - 1) % width, (y - 1) % height)
            &&& around.top_right == ((x + 1) % width, (y - 1) % height)
            &&& around.bottom_left == ((x - 1) % width, (y + 1) % height)
            &&& around.bottom_right == ((x + 1) % width, (y + 1) % height)
        }),
{
    lemma_wrap_is_remainder(width, x - 1);
    lemma_wrap_is_remainder(width, x);
    lemma_wrap_is_remainder(width, x + 1);
    lemma_wrap_is_remainder(height, y - 1);
    lemma_wrap_is_remainder(height, y);
    lemma_wrap_is_remainder(height, y + 1);
}

/// On a grid of at least three columns and three rows the eight neighbours
/// of a cell are eight different positions, and none of them is the cell.
pub proof fn lemma_around_distinct(width: int, height: int, x: int, y: int)
    requires
        width >= 3,
        height >= 3,
        on_grid(width, height, (x, y)),
    ensures
        Neighbourhood::around(width, height, x, y).spots().no_duplicates(),
        !Neighbourhood::around(width, height, x, y).spots().contains((x, y)),
{
    let spots = Neighbourhood::around(width, height, x, y).spots();
    assert(spots.len() == 8);
    assert forall|i: int, j: int| 0 <= i < 8 && 0 <= j < 8 && i != j implies spots[i] != spots[j] by {
    }
    assert forall|i: int| 0 <= i < 8 implies spots[i] != (x, y) by {
    }
}

} // verus!
