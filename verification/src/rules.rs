//! The rules of the simulation, as mathematics.
//!
//! A [`Grid`] is what a tick works on: the cells in row-major order and, for
//! each cell, whether it has already been dealt with in this tick. The
//! functions below say where a cell goes, what one visit of a cell does to the
//! grid, what a whole pass over a schedule does, and what the emitter leaves
//! behind. The executable code in [`crate::world`] is proved against them.

use vstd::prelude::*;

use crate::pixel::{empty_pixel, is_sand, Pixel, PixelBehaviour};

verus! {

/// The cell index whose column and row are those of the emitter's centre:
/// column `EMITTER_INDEX % width`, row `EMITTER_INDEX / width`.
pub const EMITTER_INDEX: usize = 40200;

/// The emitter covers the offsets from `-EMITTER_REACH` up to, but not
/// including, `EMITTER_REACH`, in both directions.
pub const EMITTER_REACH: isize = 15;

/// The cells of a world and their moved flags.
pub struct Grid {
    pub width: int,
    pub height: int,
    pub cells: Seq<Pixel>,
    pub moved: Seq<bool>,
}

impl Grid {
    /// Both sides are positive, and there is one cell and one flag for each
    /// position.
    pub open spec fn wf(self) -> bool {
        &&& self.width > 0
        &&& self.height > 0
        &&& self.cells.len() == self.width * self.height
        &&& self.moved.len() == self.width * self.height
    }

    /// The number of cells.
    pub open spec fn size(self) -> int {
        self.width * self.height
    }

    /// The same grid with another cell at `index`.
    pub open spec fn with_cell(self, index: int, pixel: Pixel) -> Grid {
        Grid { cells: self.cells.update(index, pixel), ..self }
    }

    /// The same grid with the flag at `index` set.
    pub open spec fn marked(self, index: int) -> Grid {
        Grid { moved: self.moved.update(index, true), ..self }
    }
}

/// The index of the cell that lies `dx` columns and `dy` rows from the cell
/// at `index`, or `None` where that position is outside the grid. Positions
/// never wrap round an edge.
pub open spec fn offset_index(width: int, height: int, index: int, dx: int, dy: int) -> Option<
    int,
> {
    let x = index % width + dx;
    let y = index / width + dy;
    if 0 <= x < width && 0 <= y < height {
        Some(y * width + x)
    } else {
        None
    }
}

/// The cell that lies `dx` columns and `dy` rows from the cell at `index`.
pub open spec fn neighbor(grid: Grid, index: int, dx: int, dy: int) -> Option<Pixel> {
    match offset_index(grid.width, grid.height, index, dx, dy) {
        Some(target) => Some(grid.cells[target]),
        None => None,
    }
}

/// What writing `pixel` at the offset does: the target takes the pixel and its
/// flag is set; outside the grid nothing changes.
pub open spec fn written(grid: Grid, index: int, dx: int, dy: int, pixel: Pixel) -> Grid {
    match offset_index(grid.width, grid.height, index, dx, dy) {
        Some(target) => grid.with_cell(target, pixel).marked(target),
        None => grid,
    }
}

/// The index at the offset, if that position is in the grid and empty.
pub open spec fn opening(grid: Grid, index: int, dx: int, dy: int) -> Option<int> {
    match offset_index(grid.width, grid.height, index, dx, dy) {
        Some(target) => if grid.cells[target].behaviour == PixelBehaviour::Dead {
            Some(target)
        } else {
            None
        },
        None => None,
    }
}

/// The first of two choices that exists.
pub open spec fn either(first: Option<int>, second: Option<int>) -> Option<int> {
    if first is Some {
        first
    } else {
        second
    }
}

/// The side that is tried first: left on `true`, right on `false`.
pub open spec fn first_side(coin: bool) -> int {
    if coin {
        -1
    } else {
        1
    }
}

/// Where the cell at `index` moves to, or `None` where it stays.
///
/// Straight down is preferred whenever it is open. Then come the two cells
/// diagonally below, the side chosen by the coin first. A liquid then tries
/// the two cells beside it, in the same order. A powder in the bottom row
/// stays where it is. The other materials never move.
pub open spec fn destination(grid: Grid, index: int, coin: bool) -> Option<int> {
    let side = first_side(coin);
    let down = opening(grid, index, 0, 1);
    let diagonal = either(opening(grid, index, side, 1), opening(grid, index, -side, 1));
    let lateral = either(opening(grid, index, side, 0), opening(grid, index, -side, 0));
    match grid.cells[index].behaviour {
        PixelBehaviour::Powder => if offset_index(grid.width, grid.height, index, 0, 1)
            is None {
            None
        } else {
            either(down, diagonal)
        },
        PixelBehaviour::Liquid => either(down, either(diagonal, lateral)),
        _ => None,
    }
}

/// The cell at `from` moves to `to`: the target takes the cell and is
/// flagged, and an empty cell is left behind.
pub open spec fn relocated(grid: Grid, from: int, to: int) -> Grid {
    grid.with_cell(to, grid.cells[from]).marked(to).with_cell(from, empty_pixel())
}

/// The colour of a cell that was written earlier in the same tick and is then
/// visited: no red, full blue.
pub open spec fn tinted(pixel: Pixel) -> Pixel {
    Pixel { r: 0, b: 255, ..pixel }
}

/// Whether the coin has any say in what a visit of `index` does.
pub open spec fn coin_matters(grid: Grid, index: int) -> bool {
    &&& !grid.moved[index]
    &&& opening(grid, index, 0, 1) is None
    &&& match grid.cells[index].behaviour {
        PixelBehaviour::Powder => offset_index(grid.width, grid.height, index, 0, 1) is Some,
        PixelBehaviour::Liquid => true,
        _ => false,
    }
}

/// One visit of the cell at `index`.
///
/// A cell whose flag is set is only tinted. Any other cell is flagged, and
/// moves to its destination if it has one.
pub open spec fn stepped(grid: Grid, index: int, coin: bool) -> Grid {
    if grid.moved[index] {
        grid.with_cell(index, tinted(grid.cells[index]))
    } else {
        match destination(grid, index, coin) {
            Some(target) => relocated(grid.marked(index), index, target),
            None => grid.marked(index),
        }
    }
}

/// The grid after the visits of `order[1]`, ..., `order[upto - 1]`, in that
/// order, each with its own coin. The first entry of the schedule is never
/// visited.
pub open spec fn swept(grid: Grid, order: Seq<usize>, coins: Seq<bool>, upto: int) -> Grid
    decreases upto,
{
    if upto <= 1 {
        grid
    } else {
        stepped(swept(grid, order, coins, upto - 1), order[upto - 1] as int, coins[upto - 1])
    }
}

/// How many columns and rows the cell at `index` lies from the emitter's
/// centre.
pub open spec fn emitter_offset(width: int, index: int) -> (int, int) {
    (index % width - EMITTER_INDEX as int % width, index / width - EMITTER_INDEX as int / width)
}

/// Whether the cell at `index` lies in the emitter's block.
pub open spec fn in_emitter(width: int, index: int) -> bool {
    let (dx, dy) = emitter_offset(width, index);
    -EMITTER_REACH <= dx < EMITTER_REACH && -EMITTER_REACH <= dy < EMITTER_REACH
}

/// Whether the emitter has reached the cell at `index` once it has gone
/// through the columns before offset `dx` and, in column `dx`, through the
/// rows before offset `dy`.
pub open spec fn emitter_reached(width: int, index: int, dx: int, dy: int) -> bool {
    let (x, y) = emitter_offset(width, index);
    &&& in_emitter(width, index)
    &&& x < dx || (x == dx && y < dy)
}

/// Two runs of coins that agree from the second entry up to `upto` lead to
/// the same grid.
pub proof fn lemma_swept_reads_prefix(
    grid: Grid,
    order: Seq<usize>,
    first: Seq<bool>,
    second: Seq<bool>,
    upto: int,
)
    requires
        forall|k: int| 1 <= k < upto ==> first[k] == second[k],
    ensures
        swept(grid, order, first, upto) == swept(grid, order, second, upto),
    decreases upto,
{
    if upto > 1 {
        lemma_swept_reads_prefix(grid, order, first, second, upto - 1);
    }
}

/// Whether `cells` is what the emitter leaves of `before`: a grain of sand in
/// every cell of its block, and every other cell as it was.
pub open spec fn poured(before: Seq<Pixel>, width: int, cells: Seq<Pixel>) -> bool {
    &&& cells.len() == before.len()
    &&& forall|index: int|
        0 <= index < cells.len() ==> if in_emitter(width, index) {
            is_sand(#[trigger] cells[index])
        } else {
            cells[index] == before[index]
        }
}

/// One byte of a cell's entry in the colour buffer: red, green, blue, and a
/// fourth channel that is always fully opaque.
pub open spec fn channel(pixel: Pixel, which: int) -> u8 {
    if which == 0 {
        pixel.r
    } else if which == 1 {
        pixel.g
    } else if which == 2 {
        pixel.b
    } else {
        255
    }
}

/// The colour buffer of `cells`: four bytes for each cell, in the order of
/// the cells.
pub open spec fn packed(cells: Seq<Pixel>) -> Seq<u8> {
    Seq::new(4 * cells.len(), |k: int| channel(cells[k / 4], k % 4))
}

/// The schedule that a new world starts with: the indices in rising order.
pub open spec fn rising(n: int) -> Seq<usize> {
    Seq::new(n as nat, |k: int| k as usize)
}

/// Whether `order` holds each index below `n` exactly once, and nothing else.
pub open spec fn is_schedule(order: Seq<usize>, n: int) -> bool {
    &&& order.len() == n
    &&& forall|k: usize|
        #[trigger] order.to_multiset().count(k) == if k < n {
            1nat
        } else {
            0nat
        }
}

/// Whether one tick can lead from `before` to `cells`: with the schedule
/// `order`, some run of coins and some shades of sand.
pub open spec fn ticked(before: Grid, order: Seq<usize>, coins: Seq<bool>, cells: Seq<Pixel>) -> bool {
    &&& coins.len() == order.len()
    &&& poured(swept(before, order, coins, order.len() as int).cells, before.width, cells)
}

} // verus!
