//! The maze grid: a traversability field read from a bitmap, one exit cell
//! and the spawn points of the characters.

use vstd::prelude::*;
use crate::units::{HALF_PIXEL, PIXEL_WORLD_SIZE, WorldPos, div_floor, mod_floor};

verus! {

/// A pixel is open floor when its first channel is at most this value.
pub const OPEN_THRESHOLD: u8 = 50;

/// Bytes that one pixel takes in the bitmap; the first of them decides.
pub const BYTES_PER_PIXEL: usize = 4;

/// Largest accepted number of cells along one side of the grid.
pub const MAX_SIDE: usize = 1_000_000;

/// Largest accepted number of spawn points: part numbers are single bytes
/// that start at one.
pub const MAX_SPAWNS: usize = 255;

/// The level descriptor that accompanies a maze bitmap.
pub struct LabyrinthLevel {
    /// Spawn points, in millionths of a cell, relative to the world origin.
    pub spawns: Vec<[i64; 2]>,
    /// Column and row of the exit cell.
    pub exit: [usize; 2],
}

/// Why a bitmap and a level descriptor do not make a maze.
#[derive(Clone, Copy, Debug, PartialEq, Eq, Structural)]
pub enum LevelError {
    /// The bitmap is empty, ragged or larger than [`MAX_SIDE`] along a side.
    MalformedBitmap,
    /// The exit cell lies outside the bitmap.
    ExitOutOfBounds,
    /// The descriptor names no spawn point.
    NoSpawns,
    /// The descriptor names more than [`MAX_SPAWNS`] spawn points.
    TooManySpawns,
}

/// A grid cell by column and row. Any pair of integers is a cell; those
/// outside the grid are closed.
#[derive(Clone, Copy, Debug, PartialEq, Eq, Structural)]
pub struct Cell {
    pub x: i64,
    pub y: i64,
}

/// The mathematical content of a [`MazeGrid`].
pub struct MazeView {
    pub width: int,
    pub height: int,
    /// `rows[y][x]` tells whether the bitmap marks the cell as open floor.
    pub rows: Seq<Seq<bool>>,
    pub exit: (int, int),
    pub spawns: Seq<(int, int)>,
}

/// The cell index along one axis of the coordinate `coord`, on a grid of
/// `side` cells centred on the world origin: the nearest cell centre, a tie
/// going to the higher cell.
pub open spec fn axis_cell(coord: int, side: int) -> int {
    (coord + (side + 1) * HALF_PIXEL) / (PIXEL_WORLD_SIZE as int)
}

/// How far `coord` lies beyond the lower boundary of its cell.
pub open spec fn axis_offset(coord: int, side: int) -> int {
    (coord + (side + 1) * HALF_PIXEL) % (PIXEL_WORLD_SIZE as int)
}

impl MazeView {
    /// The invariant of a maze: a rectangular field of sane size, the exit
    /// inside it, and between one and [`MAX_SPAWNS`] spawn points.
    pub open spec fn valid(self) -> bool {
        &&& 1 <= self.width <= MAX_SIDE
        &&& 1 <= self.height <= MAX_SIDE
        &&& self.rows.len() == self.height
        &&& forall|y: int| 0 <= y < self.height ==> (#[trigger] self.rows[y]).len() == self.width
        &&& 0 <= self.exit.0 < self.width
        &&& 0 <= self.exit.1 < self.height
        &&& 1 <= self.spawns.len() <= MAX_SPAWNS
        &&& forall|i: int|
            0 <= i < self.spawns.len() ==> i64::MIN <= (#[trigger] self.spawns[i]).0 <= i64::MAX
                && i64::MIN <= self.spawns[i].1 <= i64::MAX
    }

    pub open spec fn in_bounds(self, x: int, y: int) -> bool {
        0 <= x < self.width && 0 <= y < self.height
    }

    pub open spec fn is_exit(self, x: int, y: int) -> bool {
        x == self.exit.0 && y == self.exit.1
    }

    /// Whether the bitmap itself marks the cell as open floor.
    pub open spec fn nominally_open(self, x: int, y: int) -> bool {
        self.in_bounds(x, y) && self.rows[y][x]
    }

    /// Traversability: a cell inside the grid that the bitmap marks open, or
    /// the exit cell whatever the bitmap says of it.
    pub open spec fn is_open(self, x: int, y: int) -> bool {
        self.in_bounds(x, y) && (self.rows[y][x] || self.is_exit(x, y))
    }

    /// The cell that holds the world point with horizontal coordinates `x` and `z`.
    pub open spec fn cell_at(self, x: int, z: int) -> (int, int) {
        (axis_cell(x, self.width), axis_cell(z, self.height))
    }
}

/// Number of rows of a bitmap of `len` bytes and `width` pixels per row.
pub open spec fn bitmap_rows(len: int, width: int) -> int {
    len / (BYTES_PER_PIXEL * width)
}

/// Whether `len` bytes make a non-empty rectangle of whole rows, `width` pixels each.
pub open spec fn bitmap_well_formed(len: int, width: int) -> bool {
    &&& 1 <= width <= MAX_SIDE
    &&& len % (BYTES_PER_PIXEL * width) == 0
    &&& 1 <= bitmap_rows(len, width) <= MAX_SIDE
}

/// Whether the bitmap marks the pixel in column `x` of row `y` as open floor.
pub open spec fn pixel_open(pixels: Seq<u8>, width: int, x: int, y: int) -> bool {
    pixels[(y * width + x) * BYTES_PER_PIXEL] <= OPEN_THRESHOLD
}

/// The first reason, if any, for which bitmap and descriptor are rejected.
pub open spec fn rejection(pixels: Seq<u8>, width: int, level: LabyrinthLevel) -> Option<LevelError> {
    if !bitmap_well_formed(pixels.len() as int, width) {
        Some(LevelError::MalformedBitmap)
    } else if level.exit[0] >= width || level.exit[1] >= bitmap_rows(pixels.len() as int, width) {
        Some(LevelError::ExitOutOfBounds)
    } else if level.spawns.len() == 0 {
        Some(LevelError::NoSpawns)
    } else if level.spawns.len() > MAX_SPAWNS {
        Some(LevelError::TooManySpawns)
    } else {
        None
    }
}

/// Spawn points as pairs of integers.
pub open spec fn spawn_points(spawns: Seq<[i64; 2]>) -> Seq<(int, int)> {
    Seq::new(spawns.len(), |i: int| (spawns[i][0] as int, spawns[i][1] as int))
}

/// The maze that an accepted bitmap and descriptor describe.
pub open spec fn maze_of(pixels: Seq<u8>, width: int, level: LabyrinthLevel) -> MazeView {
    MazeView {
        width,
        height: bitmap_rows(pixels.len() as int, width),
        rows: Seq::new(
            bitmap_rows(pixels.len() as int, width) as nat,
            |y: int| Seq::new(width as nat, |x: int| pixel_open(pixels, width, x, y)),
        ),
        exit: (level.exit[0] as int, level.exit[1] as int),
        spawns: spawn_points(level.spawns@),
    }
}

/// The traversability field of a maze with its exit and spawn points.
/// Immutable once built.
pub struct MazeGrid {
    width: usize,
    height: usize,
    rows: Vec<Vec<bool>>,
    exit: [usize; 2],
    spawns: Vec<[i64; 2]>,
}

impl View for MazeGrid {
    type V = MazeView;

    closed spec fn view(&self) -> MazeView {
        MazeView {
            width: self.width as int,
            height: self.height as int,
            rows: Seq::new(self.rows.len() as nat, |y: int| self.rows[y]@),
            exit: (self.exit[0] as int, self.exit[1] as int),
            spawns: spawn_points(self.spawns@),
        }
    }
}

/// The byte that decides pixel (`x`, `y`) lies inside a well-formed bitmap.
proof fn lemma_pixel_index(len: int, width: int, x: int, y: int)
    requires
        bitmap_well_formed(len, width),
        0 <= len,
        0 <= x < width,
        0 <= y < bitmap_rows(len, width),
    ensures
        0 <= y * width + x < width * bitmap_rows(len, width),
        0 <= (y * width + x) * BYTES_PER_PIXEL,
        (y * width + x) * BYTES_PER_PIXEL + BYTES_PER_PIXEL <= len,
{
    let stride = BYTES_PER_PIXEL * width;
    let rows = bitmap_rows(len, width);
    vstd::arithmetic::div_mod::lemma_fundamental_div_mod(len, stride);
    assert(len == stride * rows);
    assert(y * width + x < width * rows && 0 <= y * width) by (nonlinear_arith)
        requires
            0 <= x < width,
            0 <= y < rows,
    ;
    assert(stride * rows == (width * rows) * 4) by (nonlinear_arith)
        requires
            stride == 4 * width,
    ;
}

impl MazeGrid {
    /// The invariant that every constructed maze satisfies.
    pub open spec fn wf(&self) -> bool {
        self@.valid()
    }

    /// Reads a maze from `pixels`, a row-major bitmap of `width` pixels per
    /// row and [`BYTES_PER_PIXEL`] bytes per pixel, and from its descriptor.
    ///
    /// A pixel whose first byte exceeds [`OPEN_THRESHOLD`] is wall, any other
    /// is open floor. Fails with the first applicable [`LevelError`].
    pub fn new(pixels: &[u8], width: usize, level: &LabyrinthLevel) -> (built: Result<MazeGrid, LevelError>)
        ensures
            match built {
                Ok(grid) => rejection(pixels@, width as int, *level) is None && grid.wf() && grid@
                    == maze_of(pixels@, width as int, *level),
                Err(error) => rejection(pixels@, width as int, *level) == Some(error),
            },
    {
        if width == 0 || width > MAX_SIDE {
            return Err(LevelError::MalformedBitmap);
        }
        let stride: usize = BYTES_PER_PIXEL * width;
        if pixels.len() % stride != 0 {
            return Err(LevelError::MalformedBitmap);
        }
        let height: usize = pixels.len() / stride;
        if height == 0 || height > MAX_SIDE {
            return Err(LevelError::MalformedBitmap);
        }
        if level.exit[0] >= width || level.exit[1] >= height {
            return Err(LevelError::ExitOutOfBounds);
        }
        if level.spawns.len() == 0 {
            return Err(LevelError::NoSpawns);
        }
        if level.spawns.len() > MAX_SPAWNS {
            return Err(LevelError::TooManySpawns);
        }
        let ghost target = maze_of(pixels@, width as int, *level);
        let mut rows: Vec<Vec<bool>> = Vec::new();
        let mut y: usize = 0;
        while y < height
            invariant
                pixels@.len() <= usize::MAX,
                bitmap_well_formed(pixels@.len() as int, width as int),
                height == bitmap_rows(pixels@.len() as int, width as int),
                target == maze_of(pixels@, width as int, *level),
                y <= height,
                rows.len() == y,
                forall|j: int| 0 <= j < y ==> (#[trigger] rows[j])@ == target.rows[j],
            decreases height - y,
        {
            let mut row: Vec<bool> = Vec::new();
            let mut x: usize = 0;
            while x < width
                invariant
                    pixels@.len() <= usize::MAX,
                    bitmap_well_formed(pixels@.len() as int, width as int),
                    height == bitmap_rows(pixels@.len() as int, width as int),
                    y < height,
                    x <= width,
                    row.len() == x,
                    forall|i: int|
                        0 <= i < x ==> #[trigger] row[i] == pixel_open(pixels@, width as int, i, y as int),
                decreases width - x,
            {
                proof {
                    lemma_pixel_index(pixels@.len() as int, width as int, x as int, y as int);
                    assert(0 <= y * width) by (nonlinear_arith)
                        requires
                            0 <= y,
                            0 <= width,
                    ;
                    assert(y * width + x <= pixels@.len());
                }
                let index: usize = (y * width + x) * BYTES_PER_PIXEL;
                row.push(pixels[index] <= OPEN_THRESHOLD);
                x = x + 1;
            }
            assert(row@ =~= target.rows[y as int]);
            rows.push(row);
            y = y + 1;
        }
        let mut spawns: Vec<[i64; 2]> = Vec::new();
        let mut i: usize = 0;
        while i < level.spawns.len()
            invariant
                i <= level.spawns.len(),
                spawns.len() == i,
                forall|j: int| 0 <= j < i ==> #[trigger] spawns[j] == level.spawns[j],
            decreases level.spawns.len() - i,
        {
            spawns.push(level.spawns[i]);
            i = i + 1;
        }
        let grid = MazeGrid { width, height, rows, exit: level.exit, spawns };
        proof {
            assert(grid.spawns@ =~= level.spawns@);
            assert(grid@.rows =~= target.rows);
            assert(grid@ == target);
        }
        Ok(grid)
    }

    /// Number of columns.
    pub fn width(&self) -> (width: usize)
        ensures
            width == self@.width,
    {
        self.width
    }

    /// Number of rows.
    pub fn height(&self) -> (height: usize)
        ensures
            height == self@.height,
    {
        self.height
    }

    /// The exit cell.
    pub fn exit(&self) -> (cell: Cell)
        requires
            self.wf(),
        ensures
            cell.x == self@.exit.0,
            cell.y == self@.exit.1,
    {
        Cell { x: self.exit[0] as i64, y: self.exit[1] as i64 }
    }

    /// Number of spawn points.
    pub fn spawn_count(&self) -> (count: usize)
        ensures
            count == self@.spawns.len(),
    {
        self.spawns.len()
    }

    /// The spawn point of the character with index `i`.
    pub fn spawn(&self, i: usize) -> (point: [i64; 2])
        requires
            i < self@.spawns.len(),
        ensures
            point[0] == self@.spawns[i as int].0,
            point[1] == self@.spawns[i as int].1,
    {
        self.spawns[i]
    }

    /// Whether the bitmap itself marks `cell` as open floor, inside the grid.
    pub fn nominally_open(&self, cell: Cell) -> (open: bool)
        requires
            self.wf(),
        ensures
            open == self@.nominally_open(cell.x as int, cell.y as int),
    {
        if cell.x < 0 || cell.y < 0 || cell.x >= self.width as i64 || cell.y >= self.height as i64 {
            return false;
        }
        let x: usize = cell.x as usize;
        let y: usize = cell.y as usize;
        assert(self.rows[y as int]@ == self@.rows[y as int]);
        self.rows[y][x]
    }

    /// Whether `cell` is the exit cell.
    pub fn is_exit(&self, cell: Cell) -> (exit: bool)
        requires
            self.wf(),
        ensures
            exit == self@.is_exit(cell.x as int, cell.y as int),
    {
        cell.x == self.exit[0] as i64 && cell.y == self.exit[1] as i64
    }

    /// Whether `cell` can be walked on. Cells outside the grid are closed;
    /// the exit cell is open whatever the bitmap says of it.
    pub fn is_open(&self, cell: Cell) -> (open: bool)
        requires
            self.wf(),
        ensures
            open == self@.is_open(cell.x as int, cell.y as int),
            !self@.in_bounds(cell.x as int, cell.y as int) ==> !open,
    {
        self.nominally_open(cell) || self.is_exit(cell)
    }

    /// The cell that holds the world point `pos`: along each axis the nearest
    /// cell centre of the grid, which is centred on the world origin.
    pub fn to_cell(&self, pos: WorldPos) -> (cell: Cell)
        requires
            self.wf(),
        ensures
            (cell.x as int, cell.y as int) == self@.cell_at(pos.x as int, pos.z as int),
    {
        Cell { x: cell_index(pos.x, self.width), y: cell_index(pos.z, self.height) }
    }
}

/// Executable form of [`axis_cell`].
pub(crate) fn cell_index(coord: i64, side: usize) -> (index: i64)
    requires
        side <= MAX_SIDE,
    ensures
        index == axis_cell(coord as int, side as int),
        -0x4000_0000_0000 <= index <= 0x4000_0000_0000,
{
    let shifted: i128 = coord as i128 + (side as i128 + 1) * (HALF_PIXEL as i128);
    let q: i128 = div_floor(shifted, PIXEL_WORLD_SIZE as i128);
    assert(-0x4000_0000_0000 <= q <= 0x4000_0000_0000) by (nonlinear_arith)
        requires
            q == shifted / 700_000,
            -0x8000_0000_0000_0000 <= shifted <= 0x7fff_ffff_ffff_ffff + 1_000_001 * 350_000,
    ;
    q as i64
}

/// Executable form of [`axis_offset`].
pub(crate) fn cell_offset(coord: i64, side: usize) -> (offset: i64)
    requires
        side <= MAX_SIDE,
    ensures
        offset == axis_offset(coord as int, side as int),
        0 <= offset < PIXEL_WORLD_SIZE,
{
    let shifted: i128 = coord as i128 + (side as i128 + 1) * (HALF_PIXEL as i128);
    let r: i128 = mod_floor(shifted, PIXEL_WORLD_SIZE as i128);
    r as i64
}

} // verus!
