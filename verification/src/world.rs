//! The world: the grid, its schedule, its colour buffer and its generator.

use vstd::prelude::*;

use crate::geometry::{lemma_index_of_position, lemma_position_of_index};
use crate::laws::lemma_shuffle_keeps_schedule;
use crate::pixel::{empty_pixel, is_sand, Pixel, PixelBehaviour};
use crate::random::shuffle_indices;
use crate::rules::{
    channel, coin_matters, emitter_reached, in_emitter, is_schedule, lemma_swept_reads_prefix,
    neighbor, offset_index, opening, packed, poured, relocated, rising, stepped, swept, ticked,
    written, Grid, EMITTER_INDEX, EMITTER_REACH,
};

verus! {

/// What a [`World`] holds, as mathematics.
pub struct WorldView {
    /// The cells and their moved flags.
    pub grid: Grid,
    /// The schedule: the cell indices, in the order of the last shuffle.
    pub order: Seq<usize>,
    /// The colour buffer, four bytes for each cell.
    pub texture: Seq<u8>,
}

impl WorldView {
    /// The grid has one cell for each position, the schedule holds each cell
    /// index exactly once, and the buffer has four bytes for each cell.
    pub open spec fn wf(self) -> bool {
        &&& self.grid.wf()
        &&& is_schedule(self.order, self.grid.size())
        &&& self.texture.len() == 4 * self.grid.size()
        &&& 4 * self.grid.size() <= usize::MAX
    }
}

/// A rectangular grid of cells that evolves tick by tick.
pub struct World {
    width: usize,
    height: usize,
    pixels: Vec<Pixel>,
    texture_buffer: Vec<u8>,
    updated_pixels: Vec<bool>,
    to_update: Vec<usize>,
    rng: fastrand::Rng,
}

impl View for World {
    type V = WorldView;

    closed spec fn view(&self) -> WorldView {
        WorldView {
            grid: Grid {
                width: self.width as int,
                height: self.height as int,
                cells: self.pixels@,
                moved: self.updated_pixels@,
            },
            order: self.to_update@,
            texture: self.texture_buffer@,
        }
    }
}

/// `position + delta`, where that lies below `limit`.
fn shifted(position: usize, delta: isize, limit: usize) -> (moved: Option<usize>)
    ensures
        moved == if 0 <= position + delta < limit {
            Some((position + delta) as usize)
        } else {
            None
        },
{
    if delta >= 0 {
        let step: usize = delta as usize;
        if step < limit && position < limit - step {
            Some(position + step)
        } else {
            None
        }
    } else {
        let step: usize = (-(delta + 1)) as usize + 1;
        if position >= step && position - step < limit {
            Some(position - step)
        } else {
            None
        }
    }
}

impl World {
    /// Whether the world is well formed. Every function of this type keeps it
    /// so.
    pub open spec fn wf(&self) -> bool {
        self@.wf()
    }

    /// A world of sand around the given generator.
    fn build(width: usize, height: usize, rng: fastrand::Rng) -> (world: World)
        requires
            width > 0,
            height > 0,
            4 * (width * height) <= usize::MAX,
        ensures
            world.wf(),
            world@.grid.width == width,
            world@.grid.height == height,
            forall|i: int| 0 <= i < width * height ==> is_sand(#[trigger] world@.grid.cells[i]),
            forall|i: int| 0 <= i < width * height ==> !#[trigger] world@.grid.moved[i],
            world@.order == rising(width * height),
            world@.texture == Seq::new((4 * (width * height)) as nat, |k: int| 0u8),
    {
        let mut rng = rng;
        assert(width * height <= 4 * (width * height)) by (nonlinear_arith)
            requires
                width > 0,
                height > 0,
        ;
        let size: usize = width * height;
        let mut pixels: Vec<Pixel> = Vec::new();
        let mut updated_pixels: Vec<bool> = Vec::new();
        let mut to_update: Vec<usize> = Vec::new();
        let mut texture_buffer: Vec<u8> = Vec::new();
        let mut i: usize = 0;
        proof {
            broadcast use vstd::seq_lib::group_to_multiset_ensures;

            assert(to_update@ =~= rising(0));
        }
        while i < size
            invariant
                i <= size,
                4 * size <= usize::MAX,
                pixels.len() == i,
                updated_pixels.len() == i,
                texture_buffer.len() == 4 * i,
                to_update@ == rising(i as int),
                forall|k: usize|
                    #[trigger] to_update@.to_multiset().count(k) == if k < i {
                        1nat
                    } else {
                        0nat
                    },
                forall|k: int| 0 <= k < i ==> pixels[k] == empty_pixel(),
                forall|k: int| 0 <= k < i ==> !updated_pixels[k],
                forall|k: int| 0 <= k < 4 * i ==> texture_buffer[k] == 0,
            decreases size - i,
        {
            proof {
                broadcast use vstd::seq_lib::group_to_multiset_ensures;
                broadcast use vstd::multiset::group_multiset_properties;

                assert(to_update@.push(i) =~= rising(i + 1));
            }
            pixels.push(Pixel::empty());
            updated_pixels.push(false);
            to_update.push(i);
            texture_buffer.push(0);
            texture_buffer.push(0);
            texture_buffer.push(0);
            texture_buffer.push(0);
            i = i + 1;
        }
        let mut x: usize = 0;
        while x < width
            invariant
                x <= width,
                0 < width,
                0 < height,
                size == width * height,
                pixels.len() == size,
                forall|k: int|
                    0 <= k < size && k % (width as int) < x ==> is_sand(#[trigger] pixels[k]),
            decreases width - x,
        {
            let mut y: usize = 0;
            while y < height
                invariant
                    x < width,
                    y <= height,
                    0 < height,
                    size == width * height,
                    pixels.len() == size,
                    forall|k: int|
                        0 <= k < size && (k % (width as int) < x || (k % (width as int) == x && k
                            / (width as int) < y)) ==> is_sand(#[trigger] pixels[k]),
                decreases height - y,
            {
                proof {
                    lemma_index_of_position(width as int, height as int, x as int, y as int);
                }
                let grain = Pixel::sand(&mut rng);
                let ghost before = pixels@;
                pixels[y * width + x] = grain;
                assert forall|k: int|
                    0 <= k < size && (k % (width as int) < x || (k % (width as int) == x && k / (
                    width as int) < y + 1)) implies is_sand(#[trigger] pixels[k]) by {
                    lemma_position_of_index(width as int, height as int, k);
                    if k != y * width + x {
                        assert(pixels[k] == before[k]);
                    }
                }
                y = y + 1;
            }
            assert forall|k: int| 0 <= k < size && k % (width as int) < x + 1 implies is_sand(
                #[trigger] pixels[k],
            ) by {
                lemma_position_of_index(width as int, height as int, k);
            }
            x = x + 1;
        }
        assert(texture_buffer@ =~= Seq::new((4 * size) as nat, |k: int| 0u8));
        World { width, height, pixels, texture_buffer, updated_pixels, to_update, rng }
    }

    /// A world of `width` columns and `height` rows, every cell a grain of
    /// sand, with a generator seeded by the thread's own.
    pub fn new(width: usize, height: usize) -> (world: World)
        requires
            width > 0,
            height > 0,
            4 * (width * height) <= usize::MAX,
        ensures
            world.wf(),
            world@.grid.width == width,
            world@.grid.height == height,
            forall|i: int| 0 <= i < width * height ==> is_sand(#[trigger] world@.grid.cells[i]),
            forall|i: int| 0 <= i < width * height ==> !#[trigger] world@.grid.moved[i],
            world@.order == rising(width * height),
            world@.texture == Seq::new((4 * (width * height)) as nat, |k: int| 0u8),
    {
        World::build(width, height, fastrand::Rng::new())
    }

    /// A world like that of [`World::new`], with a generator that starts from
    /// `seed`: two worlds made with one seed evolve alike.
    pub fn with_seed(width: usize, height: usize, seed: u64) -> (world: World)
        requires
            width > 0,
            height > 0,
            4 * (width * height) <= usize::MAX,
        ensures
            world.wf(),
            world@.grid.width == width,
            world@.grid.height == height,
            forall|i: int| 0 <= i < width * height ==> is_sand(#[trigger] world@.grid.cells[i]),
            forall|i: int| 0 <= i < width * height ==> !#[trigger] world@.grid.moved[i],
            world@.order == rising(width * height),
            world@.texture == Seq::new((4 * (width * height)) as nat, |k: int| 0u8),
    {
        World::build(width, height, fastrand::Rng::with_seed(seed))
    }

    /// The schedule: the order in which the last tick visited the cells.
    pub fn scan_order(&self) -> (order: &[usize])
        ensures
            order@ == self@.order,
    {
        self.to_update.as_slice()
    }

    /// The colour buffer: for each cell, in row-major order, its red, green
    /// and blue channels and a fourth byte. It shows the grid as it was when
    /// [`World::generate_texture`] last ran.
    pub fn texture_buffer(&self) -> (buffer: &[u8])
        ensures
            buffer@ == self@.texture,
    {
        self.texture_buffer.as_slice()
    }

    /// Puts `pixel` at column `x` of row `y`. The cell's moved flag is left as
    /// it is.
    pub fn set_pixel(&mut self, x: usize, y: usize, pixel: Pixel)
        requires
            old(self).wf(),
            x < old(self)@.grid.width,
            y < old(self)@.grid.height,
        ensures
            final(self).wf(),
            final(self)@ == (WorldView {
                grid: old(self)@.grid.with_cell(y * old(self)@.grid.width + x, pixel),
                ..old(self)@
            }),
    {
        let index: usize = self.get_index(x, y);
        self.pixels[index] = pixel;
    }

    /// Puts `pixel` at column `x` of row `y` if that position is in the grid,
    /// and says whether it was.
    pub fn try_set_pixel(&mut self, x: usize, y: usize, pixel: Pixel) -> (placed: bool)
        requires
            old(self).wf(),
        ensures
            final(self).wf(),
            placed == (x < old(self)@.grid.width && y < old(self)@.grid.height),
            placed ==> final(self)@ == (WorldView {
                grid: old(self)@.grid.with_cell(y * old(self)@.grid.width + x, pixel),
                ..old(self)@
            }),
            !placed ==> final(self)@ == old(self)@,
    {
        if x < self.width && y < self.height {
            self.set_pixel(x, y, pixel);
            true
        } else {
            false
        }
    }

    /// Refreshes the colour buffer from the cells.
    pub fn generate_texture(&mut self)
        requires
            old(self).wf(),
        ensures
            final(self).wf(),
            final(self)@.grid == old(self)@.grid,
            final(self)@.order == old(self)@.order,
            final(self)@.texture == packed(old(self)@.grid.cells),
            forall|i: int|
                0 <= i < final(self)@.grid.cells.len() ==> {
                    &&& final(self)@.texture[4 * i] == (#[trigger] final(self)@.grid.cells[i]).r
                    &&& final(self)@.texture[4 * i + 1] == final(self)@.grid.cells[i].g
                    &&& final(self)@.texture[4 * i + 2] == final(self)@.grid.cells[i].b
                    &&& final(self)@.texture[4 * i + 3] == 255
                },
    {
        let size: usize = self.pixels.len();
        let mut i: usize = 0;
        while i < size
            invariant
                i <= size,
                size == self.pixels.len(),
                self.texture_buffer.len() == 4 * size,
                4 * size <= usize::MAX,
                self.wf(),
                self@.grid == old(self)@.grid,
                self@.order == old(self)@.order,
                forall|k: int|
                    0 <= k < 4 * i ==> #[trigger] self.texture_buffer[k] == channel(
                        self.pixels[k / 4],
                        k % 4,
                    ),
            decreases size - i,
        {
            let pixel: Pixel = self.pixels[i];
            self.texture_buffer[i * 4] = pixel.r;
            self.texture_buffer[i * 4 + 1] = pixel.g;
            self.texture_buffer[i * 4 + 2] = pixel.b;
            self.texture_buffer[i * 4 + 3] = 255;
            i = i + 1;
        }
        assert(self.texture_buffer@ =~= packed(self.pixels@));
    }

    /// The number of columns.
    pub fn width(&self) -> (width: usize)
        ensures
            width == self@.grid.width,
    {
        self.width
    }

    /// The number of rows.
    pub fn height(&self) -> (height: usize)
        ensures
            height == self@.grid.height,
    {
        self.height
    }

    /// The column and the row of a cell index.
    pub fn get_xy(&self, index: usize) -> (position: (usize, usize))
        requires
            self.wf(),
        ensures
            position.0 == index as int % self@.grid.width,
            position.1 == index as int / self@.grid.width,
    {
        let x: usize = index % self.width;
        let y: usize = index / self.width;
        (x, y)
    }

    /// The cell index of a column and a row.
    pub fn get_index(&self, x: usize, y: usize) -> (index: usize)
        requires
            self.wf(),
            x < self@.grid.width,
            y < self@.grid.height,
        ensures
            index == y * self@.grid.width + x,
            index < self@.grid.size(),
    {
        proof {
            lemma_index_of_position(self.width as int, self.height as int, x as int, y as int);
        }
        y * self.width + x
    }

    /// The index of the cell at an offset from `index`, if there is one.
    fn offset_target(&self, index: usize, off_x: isize, off_y: isize) -> (target: Option<usize>)
        requires
            self.wf(),
        ensures
            match target {
                Some(t) => offset_index(
                    self@.grid.width,
                    self@.grid.height,
                    index as int,
                    off_x as int,
                    off_y as int,
                ) == Some(t as int) && t < self@.grid.size(),
                None => offset_index(
                    self@.grid.width,
                    self@.grid.height,
                    index as int,
                    off_x as int,
                    off_y as int,
                ) is None,
            },
    {
        let (x, y) = self.get_xy(index);
        match shifted(x, off_x, self.width) {
            None => None,
            Some(i_x) => match shifted(y, off_y, self.height) {
                None => None,
                Some(i_y) => Some(self.get_index(i_x, i_y)),
            },
        }
    }

    /// The cell that lies `off_x` columns and `off_y` rows from the cell at
    /// `index`, or `None` where that position is outside the grid.
    pub fn index_get_pixel_offset(&self, index: usize, off_x: isize, off_y: isize) -> (found:
        Option<Pixel>)
        requires
            self.wf(),
        ensures
            found == neighbor(self@.grid, index as int, off_x as int, off_y as int),
            found is Some <==> {
                &&& 0 <= index as int % self@.grid.width + off_x < self@.grid.width
                &&& 0 <= index as int / self@.grid.width + off_y < self@.grid.height
            },
    {
        match self.offset_target(index, off_x, off_y) {
            Some(target) => Some(self.pixels[target]),
            None => None,
        }
    }

    /// Writes `pixel` at the offset and flags that cell. Outside the grid
    /// nothing is written.
    pub fn index_set_pixel_offset(&mut self, index: usize, off_x: isize, off_y: isize, pixel: Pixel)
        requires
            old(self).wf(),
        ensures
            final(self).wf(),
            final(self)@.grid == written(
                old(self)@.grid,
                index as int,
                off_x as int,
                off_y as int,
                pixel,
            ),
            final(self)@.order == old(self)@.order,
            final(self)@.texture == old(self)@.texture,
    {
        match self.offset_target(index, off_x, off_y) {
            Some(target) => {
                self.updated_pixels[target] = true;
                self.pixels[target] = pixel;
            },
            None => {},
        }
    }

    /// Moves the cell at `index` to the offset, if the cell there is empty,
    /// and says whether it did.
    fn try_move(&mut self, index: usize, off_x: isize, off_y: isize) -> (went: bool)
        requires
            old(self).wf(),
            index < old(self)@.grid.size(),
        ensures
            final(self).wf(),
            final(self)@.order == old(self)@.order,
            final(self)@.texture == old(self)@.texture,
            went == opening(old(self)@.grid, index as int, off_x as int, off_y as int) is Some,
            final(self)@.grid == match opening(
                old(self)@.grid,
                index as int,
                off_x as int,
                off_y as int,
            ) {
                Some(target) => relocated(old(self)@.grid, index as int, target),
                None => old(self)@.grid,
            },
    {
        match self.index_get_pixel_offset(index, off_x, off_y) {
            Some(found) => {
                if found.behaviour == PixelBehaviour::Dead {
                    let pixel: Pixel = self.pixels[index];
                    self.index_set_pixel_offset(index, off_x, off_y, pixel);
                    self.pixels[index] = Pixel::empty();
                    true
                } else {
                    false
                }
            },
            None => false,
        }
    }

    /// Whether a visit of the cell at `index` has a use for a coin: the cell
    /// is not flagged, cannot go straight down, and is a liquid, or a powder
    /// above the bottom row.
    pub fn needs_coin(&self, index: usize) -> (needed: bool)
        requires
            self.wf(),
            index < self@.grid.size(),
        ensures
            needed == coin_matters(self@.grid, index as int),
    {
        if self.updated_pixels[index] {
            return false;
        }
        let below: Option<Pixel> = self.index_get_pixel_offset(index, 0, 1);
        match self.pixels[index].behaviour {
            PixelBehaviour::Powder => match below {
                Some(found) => found.behaviour != PixelBehaviour::Dead,
                None => false,
            },
            PixelBehaviour::Liquid => match below {
                Some(found) => found.behaviour != PixelBehaviour::Dead,
                None => true,
            },
            _ => false,
        }
    }

    /// Visits the cell at `index`, with `coin` to break the tie between left
    /// and right.
    ///
    /// A cell that was written earlier in the tick is tinted and left alone.
    /// Any other cell is flagged; a powder or a liquid then moves to the first
    /// empty cell among those it may try, and leaves an empty cell behind.
    pub fn step(&mut self, index: usize, coin: bool)
        requires
            old(self).wf(),
            index < old(self)@.grid.size(),
        ensures
            final(self).wf(),
            final(self)@.grid == stepped(old(self)@.grid, index as int, coin),
            final(self)@.order == old(self)@.order,
            final(self)@.texture == old(self)@.texture,
    {
        if self.updated_pixels[index] {
            let pixel: Pixel = self.pixels[index];
            self.pixels[index] = Pixel { r: 0, g: pixel.g, b: 255, behaviour: pixel.behaviour };
            return ;
        }
        self.updated_pixels[index] = true;
        let side: isize = if coin {
            -1
        } else {
            1
        };
        match self.pixels[index].behaviour {
            PixelBehaviour::Powder => {
                if self.index_get_pixel_offset(index, 0, 1).is_none() {
                    return ;
                }
                if self.try_move(index, 0, 1) {
                    return ;
                }
                if self.try_move(index, side, 1) {
                    return ;
                }
                self.try_move(index, -side, 1);
            },
            PixelBehaviour::Liquid => {
                if self.try_move(index, 0, 1) {
                    return ;
                }
                if self.try_move(index, side, 1) {
                    return ;
                }
                if self.try_move(index, -side, 1) {
                    return ;
                }
                if self.try_move(index, side, 0) {
                    return ;
                }
                self.try_move(index, -side, 0);
            },
            _ => {},
        }
    }

    /// Visits the cells in the order of the schedule, from its second entry
    /// on, and draws a coin for each cell that has a use for one.
    fn sweep(&mut self)
        requires
            old(self).wf(),
        ensures
            final(self).wf(),
            final(self)@.grid.width == old(self)@.grid.width,
            final(self)@.grid.height == old(self)@.grid.height,
            final(self)@.order == old(self)@.order,
            final(self)@.texture == old(self)@.texture,
            exists|coins: Seq<bool>|
                coins.len() == old(self)@.order.len() && final(self)@.grid == #[trigger] swept(
                    old(self)@.grid,
                    old(self)@.order,
                    coins,
                    old(self)@.order.len() as int,
                ),
    {
        let size: usize = self.to_update.len();
        let ghost mut coins: Seq<bool> = Seq::new(size as nat, |k: int| false);
        let mut i: usize = 1;
        while i < size
            invariant
                1 <= i,
                i == 1 || i <= size,
                size == self.to_update.len(),
                self.wf(),
                self@.grid.width == old(self)@.grid.width,
                self@.grid.height == old(self)@.grid.height,
                self@.order == old(self)@.order,
                self@.texture == old(self)@.texture,
                coins.len() == size,
                self@.grid == swept(old(self)@.grid, old(self)@.order, coins, i as int),
            decreases size - i,
        {
            let index: usize = self.to_update[i];
            proof {
                broadcast use vstd::seq_lib::group_to_multiset_ensures;

                assert(self.to_update@.contains(index));
                assert(self.to_update@.to_multiset().count(index) > 0);
            }
            let coin: bool = if self.needs_coin(index) {
                self.rng.bool()
            } else {
                false
            };
            let ghost earlier = coins;
            proof {
                coins = coins.update(i as int, coin);
                lemma_swept_reads_prefix(
                    old(self)@.grid,
                    old(self)@.order,
                    earlier,
                    coins,
                    i as int,
                );
            }
            self.step(index, coin);
            assert(swept(old(self)@.grid, old(self)@.order, coins, i + 1) == stepped(
                swept(old(self)@.grid, old(self)@.order, coins, i as int),
                index as int,
                coin,
            ));
            i = i + 1;
        }
        assert(self@.grid == swept(old(self)@.grid, old(self)@.order, coins, size as int));
    }

    /// Pours sand: writes a fresh grain at every offset of the emitter's
    /// block, as far as the block lies in the grid.
    fn emit(&mut self)
        requires
            old(self).wf(),
        ensures
            final(self).wf(),
            final(self)@.grid.width == old(self)@.grid.width,
            final(self)@.grid.height == old(self)@.grid.height,
            final(self)@.order == old(self)@.order,
            final(self)@.texture == old(self)@.texture,
            poured(old(self)@.grid.cells, old(self)@.grid.width, final(self)@.grid.cells),
    {
        let ghost width = self.width as int;
        let ghost height = self.height as int;
        let mut xo: isize = -EMITTER_REACH;
        while xo < EMITTER_REACH
            invariant
                -EMITTER_REACH <= xo <= EMITTER_REACH,
                self.wf(),
                self@.grid.width == width,
                self@.grid.height == height,
                old(self)@.grid.width == width,
                old(self)@.grid.cells.len() == width * height,
                self@.order == old(self)@.order,
                self@.texture == old(self)@.texture,
                forall|index: int|
                    0 <= index < width * height ==> if emitter_reached(
                        width,
                        index,
                        xo as int,
                        -EMITTER_REACH as int,
                    ) {
                        is_sand(#[trigger] self@.grid.cells[index])
                    } else {
                        self@.grid.cells[index] == old(self)@.grid.cells[index]
                    },
            decreases EMITTER_REACH - xo,
        {
            let mut yo: isize = -EMITTER_REACH;
            while yo < EMITTER_REACH
                invariant
                    -EMITTER_REACH <= xo < EMITTER_REACH,
                    -EMITTER_REACH <= yo <= EMITTER_REACH,
                    self.wf(),
                    self@.grid.width == width,
                    self@.grid.height == height,
                    old(self)@.grid.width == width,
                    old(self)@.grid.cells.len() == width * height,
                    self@.order == old(self)@.order,
                    self@.texture == old(self)@.texture,
                    forall|index: int|
                        0 <= index < width * height ==> if emitter_reached(
                            width,
                            index,
                            xo as int,
                            yo as int,
                        ) {
                            is_sand(#[trigger] self@.grid.cells[index])
                        } else {
                            self@.grid.cells[index] == old(self)@.grid.cells[index]
                        },
                decreases EMITTER_REACH - yo,
            {
                let grain: Pixel = Pixel::sand(&mut self.rng);
                let ghost before = self@.grid;
                self.index_set_pixel_offset(EMITTER_INDEX, xo, yo, grain);
                assert forall|index: int| 0 <= index < width * height implies if emitter_reached(
                    width,
                    index,
                    xo as int,
                    yo + 1,
                ) {
                    is_sand(#[trigger] self@.grid.cells[index])
                } else {
                    self@.grid.cells[index] == old(self)@.grid.cells[index]
                } by {
                    lemma_position_of_index(width, height, index);
                    let x = EMITTER_INDEX as int % width + xo;
                    let y = EMITTER_INDEX as int / width + yo;
                    if 0 <= x < width && 0 <= y < height {
                        lemma_index_of_position(width, height, x, y);
                    }
                    if index != y * width + x {
                        assert(self@.grid.cells[index] == before.cells[index]);
                    }
                }
                yo = yo + 1;
            }
            xo = xo + 1;
        }
    }

    /// Clears every moved flag.
    fn clear_flags(&mut self)
        requires
            old(self).wf(),
        ensures
            final(self).wf(),
            final(self)@.grid.width == old(self)@.grid.width,
            final(self)@.grid.height == old(self)@.grid.height,
            final(self)@.grid.cells == old(self)@.grid.cells,
            final(self)@.order == old(self)@.order,
            final(self)@.texture == old(self)@.texture,
            forall|i: int| 0 <= i < final(self)@.grid.moved.len() ==> !final(self)@.grid.moved[i],
    {
        let size: usize = self.updated_pixels.len();
        let mut i: usize = 0;
        while i < size
            invariant
                i <= size,
                size == self.updated_pixels.len(),
                self.wf(),
                self@.grid.width == old(self)@.grid.width,
                self@.grid.height == old(self)@.grid.height,
                self@.grid.cells == old(self)@.grid.cells,
                self@.order == old(self)@.order,
                self@.texture == old(self)@.texture,
                forall|k: int| 0 <= k < i ==> !self.updated_pixels[k],
            decreases size - i,
        {
            self.updated_pixels[i] = false;
            i = i + 1;
        }
    }

    /// Advances the world by one tick.
    ///
    /// The schedule is shuffled; every cell but the one that comes first in
    /// it is visited once, in the order of the schedule; the emitter pours
    /// sand; and the moved flags are cleared. Which schedule, which coins and
    /// which shades of sand come up is left to the generator: the new cells
    /// are those that the rules give for the schedule that the world then
    /// holds and for some run of coins.
    pub fn update(&mut self)
        requires
            old(self).wf(),
        ensures
            final(self).wf(),
            final(self)@.grid.width == old(self)@.grid.width,
            final(self)@.grid.height == old(self)@.grid.height,
            final(self)@.grid.cells.len() == old(self)@.grid.cells.len(),
            final(self)@.grid.moved.len() == old(self)@.grid.moved.len(),
            final(self)@.texture == old(self)@.texture,
            is_schedule(final(self)@.order, final(self)@.grid.size()),
            exists|coins: Seq<bool>| #[trigger]
                ticked(old(self)@.grid, final(self)@.order, coins, final(self)@.grid.cells),
            forall|i: int|
                0 <= i < final(self)@.grid.cells.len() && in_emitter(final(self)@.grid.width, i)
                    ==> (#[trigger] final(self)@.grid.cells[i]).behaviour
                    == PixelBehaviour::Powder,
            forall|i: int| 0 <= i < final(self)@.grid.moved.len() ==> !final(self)@.grid.moved[i],
    {
        shuffle_indices(&mut self.rng, &mut self.to_update);
        proof {
            lemma_shuffle_keeps_schedule(
                old(self).to_update@,
                self.to_update@,
                old(self)@.grid.size(),
            );
        }
        let ghost start = self@.grid;
        self.sweep();
        let ghost coins = choose|coins: Seq<bool>|
            coins.len() == self@.order.len() && self@.grid == #[trigger] swept(
                start,
                self@.order,
                coins,
                self@.order.len() as int,
            );
        self.emit();
        self.clear_flags();
        assert(ticked(old(self)@.grid, self@.order, coins, self@.grid.cells));
    }
}

} // verus!
