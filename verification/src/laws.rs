//! What follows from the rules.
//!
//! Each proof function here states a law of the simulation over the
//! specification functions of [`crate::rules`], and is checked by the
//! verifier.

use vstd::multiset::Multiset;
use vstd::prelude::*;
use vstd::seq_lib::{to_multiset_contains, to_multiset_len, to_multiset_update};

use crate::geometry::{lemma_index_of_position, lemma_position_of_index};
use crate::pixel::{empty_pixel, Pixel, PixelBehaviour};
use crate::rules::{
    coin_matters, destination, first_side, in_emitter, is_schedule, offset_index, opening,
    relocated, stepped, swept, ticked, tinted, Grid,
};

verus! {

/// The materials of the cells, each as often as it occurs.
pub open spec fn materials(cells: Seq<Pixel>) -> Multiset<PixelBehaviour> {
    cells.map_values(|pixel: Pixel| pixel.behaviour).to_multiset()
}

/// The number of cells that are not empty.
pub open spec fn occupied(cells: Seq<Pixel>) -> int {
    cells.len() - materials(cells).count(PixelBehaviour::Dead)
}

/// An offset never wraps: where it leads to a cell, that cell lies in the
/// array, in the column and the row that the offset names; and it leads to no
/// cell exactly where that column or that row is outside the grid.
pub proof fn lemma_offsets_stay_in_bounds(width: int, height: int, index: int, dx: int, dy: int)
    requires
        width > 0,
        height > 0,
        index >= 0,
    ensures
        match offset_index(width, height, index, dx, dy) {
            Some(target) => {
                &&& 0 <= target < width * height
                &&& target % width == index % width + dx
                &&& target / width == index / width + dy
            },
            None => !(0 <= index % width + dx < width && 0 <= index / width + dy < height),
        },
{
    let x = index % width + dx;
    let y = index / width + dy;
    if 0 <= x < width && 0 <= y < height {
        lemma_index_of_position(width, height, x, y);
    }
}

/// A schedule is a permutation of the cell indices: it has one entry for
/// each cell, every entry is a cell index, no entry occurs twice, and every
/// cell index occurs.
pub proof fn lemma_schedule_is_permutation(order: Seq<usize>, n: int)
    requires
        is_schedule(order, n),
    ensures
        order.len() == n,
        forall|i: int| 0 <= i < order.len() ==> 0 <= #[trigger] order[i] < n,
        order.no_duplicates(),
        forall|k: usize| 0 <= k < n ==> order.contains(k),
{
    assert forall|i: int| 0 <= i < order.len() implies 0 <= #[trigger] order[i] < n by {
        assert(order.contains(order[i]));
        to_multiset_contains(order, order[i]);
    }
    assert forall|k: usize| 0 <= k < n implies order.contains(k) by {
        to_multiset_contains(order, k);
    }
    assert forall|k: usize| order.to_multiset().contains(k) implies order.to_multiset().count(k)
        == 1 by {
        assert(order.to_multiset().count(k) > 0);
    }
    order.lemma_multiset_has_no_duplicates_conv();
}

/// Rearranging a schedule gives a schedule.
pub proof fn lemma_shuffle_keeps_schedule(before: Seq<usize>, after: Seq<usize>, n: int)
    requires
        is_schedule(before, n),
        after.to_multiset() == before.to_multiset(),
    ensures
        is_schedule(after, n),
{
    to_multiset_len(before);
    to_multiset_len(after);
}

/// A visit keeps the shape of the grid: its sides, and the number of cells
/// and of flags.
pub proof fn lemma_step_keeps_shape(grid: Grid, index: int, coin: bool)
    requires
        grid.wf(),
        0 <= index < grid.size(),
    ensures
        stepped(grid, index, coin).wf(),
        stepped(grid, index, coin).width == grid.width,
        stepped(grid, index, coin).height == grid.height,
{
    lemma_destination_is_open(grid, index, coin);
}

/// A pass keeps the shape of the grid.
pub proof fn lemma_sweep_keeps_shape(grid: Grid, order: Seq<usize>, coins: Seq<bool>, upto: int)
    requires
        grid.wf(),
        is_schedule(order, grid.size()),
        upto <= order.len(),
    ensures
        swept(grid, order, coins, upto).wf(),
        swept(grid, order, coins, upto).width == grid.width,
        swept(grid, order, coins, upto).height == grid.height,
    decreases upto,
{
    if upto > 1 {
        lemma_sweep_keeps_shape(grid, order, coins, upto - 1);
        lemma_schedule_is_permutation(order, grid.size());
        lemma_step_keeps_shape(
            swept(grid, order, coins, upto - 1),
            order[upto - 1] as int,
            coins[upto - 1],
        );
    }
}

/// A cell moves only into an empty cell of the grid, and only a powder or a
/// liquid moves.
pub proof fn lemma_destination_is_open(grid: Grid, index: int, coin: bool)
    requires
        grid.wf(),
        0 <= index < grid.size(),
    ensures
        match destination(grid, index, coin) {
            Some(target) => {
                &&& 0 <= target < grid.size()
                &&& target != index
                &&& grid.cells[target].behaviour == PixelBehaviour::Dead
                &&& grid.cells[index].behaviour == PixelBehaviour::Powder
                    || grid.cells[index].behaviour == PixelBehaviour::Liquid
            },
            None => true,
        },
{
    let side = first_side(coin);
    lemma_offsets_stay_in_bounds(grid.width, grid.height, index, 0, 1);
    lemma_offsets_stay_in_bounds(grid.width, grid.height, index, side, 1);
    lemma_offsets_stay_in_bounds(grid.width, grid.height, index, -side, 1);
    lemma_offsets_stay_in_bounds(grid.width, grid.height, index, side, 0);
    lemma_offsets_stay_in_bounds(grid.width, grid.height, index, -side, 0);
}

/// A cell that moves arrives unchanged, and leaves an empty cell behind.
pub proof fn lemma_move_leaves_empty(grid: Grid, index: int, coin: bool)
    requires
        grid.wf(),
        0 <= index < grid.size(),
        !grid.moved[index],
        destination(grid, index, coin) is Some,
    ensures
        stepped(grid, index, coin).cells[index] == empty_pixel(),
        stepped(grid, index, coin).cells[destination(grid, index, coin).unwrap()]
            == grid.cells[index],
        forall|other: int|
            0 <= other < grid.size() && other != index && other != destination(
                grid,
                index,
                coin,
            ).unwrap() ==> #[trigger] stepped(grid, index, coin).cells[other] == grid.cells[other],
{
    lemma_destination_is_open(grid, index, coin);
}

/// Swapping a cell with an empty cell changes no count of materials.
proof fn lemma_relocation_conserves(grid: Grid, from: int, to: int)
    requires
        grid.wf(),
        0 <= from < grid.size(),
        0 <= to < grid.size(),
        from != to,
        grid.cells[to].behaviour == PixelBehaviour::Dead,
    ensures
        materials(relocated(grid, from, to).cells) == materials(grid.cells),
{
    let kind = |pixel: Pixel| pixel.behaviour;
    let start = grid.cells.map_values(kind);
    let landed = grid.cells.update(to, grid.cells[from]);
    let done = landed.update(from, empty_pixel());
    assert(landed.map_values(kind) =~= start.update(to, start[from]));
    assert(done.map_values(kind) =~= start.update(to, start[from]).update(
        from,
        PixelBehaviour::Dead,
    ));
    to_multiset_update(start, to, start[from]);
    to_multiset_update(start.update(to, start[from]), from, PixelBehaviour::Dead);
    to_multiset_contains(start, PixelBehaviour::Dead);
    assert(start.contains(start[to]));
    assert(start.to_multiset().insert(start[from]).remove(PixelBehaviour::Dead).insert(
        PixelBehaviour::Dead,
    ).remove(start[from]) =~= start.to_multiset());
    assert(relocated(grid, from, to).cells == done);
}

/// Movement conserves material: a visit of a cell changes neither how often
/// any material occurs in the grid nor, therefore, the number of cells that
/// are not empty.
pub proof fn lemma_step_conserves(grid: Grid, index: int, coin: bool)
    requires
        grid.wf(),
        0 <= index < grid.size(),
    ensures
        materials(stepped(grid, index, coin).cells) == materials(grid.cells),
        occupied(stepped(grid, index, coin).cells) == occupied(grid.cells),
{
    let kind = |pixel: Pixel| pixel.behaviour;
    if grid.moved[index] {
        assert(grid.cells.update(index, tinted(grid.cells[index])).map_values(kind)
            =~= grid.cells.map_values(kind));
    } else {
        match destination(grid, index, coin) {
            Some(target) => {
                lemma_destination_is_open(grid, index, coin);
                lemma_relocation_conserves(grid.marked(index), index, target);
            },
            None => {},
        }
    }
}

/// A whole pass over a schedule conserves material.
pub proof fn lemma_sweep_conserves(grid: Grid, order: Seq<usize>, coins: Seq<bool>, upto: int)
    requires
        grid.wf(),
        is_schedule(order, grid.size()),
        upto <= order.len(),
    ensures
        materials(swept(grid, order, coins, upto).cells) == materials(grid.cells),
        occupied(swept(grid, order, coins, upto).cells) == occupied(grid.cells),
    decreases upto,
{
    if upto > 1 {
        lemma_sweep_conserves(grid, order, coins, upto - 1);
        lemma_sweep_keeps_shape(grid, order, coins, upto - 1);
        lemma_schedule_is_permutation(order, grid.size());
        lemma_step_conserves(
            swept(grid, order, coins, upto - 1),
            order[upto - 1] as int,
            coins[upto - 1],
        );
    }
}

/// After a tick every cell of the emitter's block, as far as the block lies
/// in the grid, holds a powder, and every other cell is as the pass left it.
pub proof fn lemma_tick_fills_emitter(
    before: Grid,
    order: Seq<usize>,
    coins: Seq<bool>,
    cells: Seq<Pixel>,
)
    requires
        before.wf(),
        is_schedule(order, before.size()),
        ticked(before, order, coins, cells),
    ensures
        cells.len() == before.size(),
        forall|index: int|
            0 <= index < before.size() && in_emitter(before.width, index) ==> (
            #[trigger] cells[index]).behaviour == PixelBehaviour::Powder,
        forall|index: int|
            0 <= index < before.size() && !in_emitter(before.width, index)
                ==> #[trigger] cells[index] == swept(
                before,
                order,
                coins,
                order.len() as int,
            ).cells[index],
{
    lemma_sweep_keeps_shape(before, order, coins, order.len() as int);
}

/// Away from the emitter a whole tick conserves material: in a grid that the
/// emitter's block does not reach, the cells hold every material as often
/// after a tick as before it.
pub proof fn lemma_tick_conserves_beyond_emitter(
    before: Grid,
    order: Seq<usize>,
    coins: Seq<bool>,
    cells: Seq<Pixel>,
)
    requires
        before.wf(),
        is_schedule(order, before.size()),
        ticked(before, order, coins, cells),
        forall|index: int| 0 <= index < before.size() ==> !in_emitter(before.width, index),
    ensures
        materials(cells) == materials(before.cells),
        occupied(cells) == occupied(before.cells),
{
    let passed = swept(before, order, coins, order.len() as int);
    lemma_sweep_keeps_shape(before, order, coins, order.len() as int);
    lemma_sweep_conserves(before, order, coins, order.len() as int);
    assert(cells =~= passed.cells);
}

/// A powder in the bottom row stays where it is: a visit flags it and
/// changes no cell, whatever the coin shows.
pub proof fn lemma_powder_rests_on_floor(grid: Grid, index: int, coin: bool)
    requires
        grid.wf(),
        0 <= index < grid.size(),
        !grid.moved[index],
        grid.cells[index].behaviour == PixelBehaviour::Powder,
        index / grid.width == grid.height - 1,
    ensures
        destination(grid, index, coin) is None,
        stepped(grid, index, coin) == grid.marked(index),
        stepped(grid, index, coin).cells == grid.cells,
{
}

/// Straight down comes first: a powder or a liquid with an empty cell
/// directly below moves there, whatever the coin shows and whatever lies at
/// its sides.
pub proof fn lemma_prefers_straight_down(grid: Grid, index: int, coin: bool)
    requires
        grid.wf(),
        0 <= index < grid.size(),
        grid.cells[index].behaviour == PixelBehaviour::Powder || grid.cells[index].behaviour
            == PixelBehaviour::Liquid,
        opening(grid, index, 0, 1) is Some,
    ensures
        destination(grid, index, coin) == Some(index + grid.width),
{
    lemma_position_of_index(grid.width, grid.height, index);
    assert((index / grid.width + 1) * grid.width == (index / grid.width) * grid.width
        + grid.width) by (nonlinear_arith);
}

/// A liquid that is shut in below and on both diagonals, and on its left,
/// moves to the empty cell on its right, whatever the coin shows.
pub proof fn lemma_boxed_liquid_flows_right(grid: Grid, index: int, coin: bool)
    requires
        grid.wf(),
        0 <= index < grid.size(),
        grid.cells[index].behaviour == PixelBehaviour::Liquid,
        opening(grid, index, 0, 1) is None,
        opening(grid, index, 1, 1) is None,
        opening(grid, index, -1, 1) is None,
        opening(grid, index, -1, 0) is None,
        opening(grid, index, 1, 0) is Some,
    ensures
        destination(grid, index, coin) == Some(index + 1),
{
    lemma_position_of_index(grid.width, grid.height, index);
}

/// Where the coin does not matter, both of its faces lead to the same grid.
pub proof fn lemma_idle_coin(grid: Grid, index: int)
    requires
        grid.wf(),
        0 <= index < grid.size(),
        !coin_matters(grid, index),
    ensures
        stepped(grid, index, true) == stepped(grid, index, false),
{
}

} // verus!
