//! The static scene of a maze: one tile per cell and the wall quads between
//! cells, generated from the same grid that collision resolution reads.

use vstd::prelude::*;
use crate::maze::{Cell, MazeGrid, MazeView};
use crate::units::{HALF_PIXEL, PIXEL_WORLD_SIZE, WALL_HEIGHT, WorldPos};

verus! {

/// One of the four neighbours of a cell.
#[derive(Clone, Copy, Debug, PartialEq, Eq, Structural)]
pub enum Direction {
    /// The next column.
    PosX,
    /// The previous column.
    NegX,
    /// The next row.
    PosY,
    /// The previous row.
    NegY,
}

impl Direction {
    /// Column offset of the neighbour.
    pub open spec fn dx(self) -> int {
        match self {
            Direction::PosX => 1,
            Direction::NegX => -1,
            _ => 0,
        }
    }

    /// Row offset of the neighbour.
    pub open spec fn dy(self) -> int {
        match self {
            Direction::PosY => 1,
            Direction::NegY => -1,
            _ => 0,
        }
    }

    /// The neighbour of `cell` on this side.
    pub fn neighbour(self, cell: Cell) -> (next: Cell)
        requires
            i64::MIN < cell.x < i64::MAX,
            i64::MIN < cell.y < i64::MAX,
        ensures
            next.x == cell.x + self.dx(),
            next.y == cell.y + self.dy(),
    {
        match self {
            Direction::PosX => Cell { x: cell.x + 1, y: cell.y },
            Direction::NegX => Cell { x: cell.x - 1, y: cell.y },
            Direction::PosY => Cell { x: cell.x, y: cell.y + 1 },
            Direction::NegY => Cell { x: cell.x, y: cell.y - 1 },
        }
    }
}

/// What a quad of the scene stands for.
#[derive(Clone, Copy, Debug, PartialEq, Eq, Structural)]
pub enum QuadKind {
    /// The floor of an open cell, one wall height below zero.
    Floor,
    /// The raised floor of the exit cell, half a wall height below zero.
    ExitFloor,
    /// The top of a closed cell, at height zero.
    Roof,
    /// A wall of full height on the boundary to a closed cell.
    Wall,
    /// A wall of half height on a boundary of the exit cell that can be crossed.
    Doorway,
}

/// The surface that a quad is drawn with.
#[derive(Clone, Copy, Debug, PartialEq, Eq, Structural)]
pub enum Material {
    Ground,
    Grass,
    Wall,
}

/// The world direction that the visible side of a quad faces.
#[derive(Clone, Copy, Debug, PartialEq, Eq, Structural)]
pub enum Facing {
    Up,
    PosX,
    NegX,
    PosZ,
    NegZ,
}

/// One rectangle of the scene.
#[derive(Clone, Copy, Debug, PartialEq, Eq)]
pub struct Quad {
    pub kind: QuadKind,
    /// The cell that the quad was generated for.
    pub cell: Cell,
    /// For a wall or doorway, the side of `cell` on which it stands.
    pub side: Option<Direction>,
    /// Centre of the rectangle.
    pub center: WorldPos,
    /// Horizontal extent.
    pub width: i64,
    /// Extent across: along the ground for tiles, upwards for walls.
    pub depth: i64,
    pub facing: Facing,
    pub material: Material,
}

/// World coordinate of the centre of the cell with index `index` along an
/// axis of `side` cells.
pub open spec fn axis_center(index: int, side: int) -> int {
    index * PIXEL_WORLD_SIZE - side * HALF_PIXEL
}

/// The tile of cell (`x`, `y`): the raised grass floor of the exit cell, the
/// ground of an open cell or the grass roof of a closed one.
pub open spec fn tile(maze: MazeView, x: int, y: int) -> Quad {
    let kind = if maze.is_exit(x, y) {
        QuadKind::ExitFloor
    } else if maze.rows[y][x] {
        QuadKind::Floor
    } else {
        QuadKind::Roof
    };
    let level: int = match kind {
        QuadKind::ExitFloor => -WALL_HEIGHT / 2,
        QuadKind::Floor => -(WALL_HEIGHT as int),
        _ => 0,
    };
    Quad {
        kind,
        cell: Cell { x: x as i64, y: y as i64 },
        side: None,
        center: WorldPos {
            x: axis_center(x, maze.width) as i64,
            y: level as i64,
            z: axis_center(y, maze.height) as i64,
        },
        width: PIXEL_WORLD_SIZE,
        depth: PIXEL_WORLD_SIZE,
        facing: Facing::Up,
        material: if kind == QuadKind::Floor {
            Material::Ground
        } else {
            Material::Grass
        },
    }
}

/// What stands on the `side` boundary of the cell (`x`, `y`) inside the grid.
///
/// An open cell has a wall towards every closed neighbour; towards an exit
/// cell that the bitmap marks as wall it has a doorway instead. The exit
/// cell has a doorway towards every open neighbour and a wall towards every
/// other. A closed cell has nothing.
pub open spec fn boundary(maze: MazeView, x: int, y: int, side: Direction) -> Option<QuadKind> {
    let nx = x + side.dx();
    let ny = y + side.dy();
    if maze.is_exit(x, y) {
        if maze.is_open(nx, ny) {
            Some(QuadKind::Doorway)
        } else {
            Some(QuadKind::Wall)
        }
    } else if maze.rows[y][x] {
        if !maze.is_open(nx, ny) {
            Some(QuadKind::Wall)
        } else if maze.is_exit(nx, ny) && !maze.rows[ny][nx] {
            Some(QuadKind::Doorway)
        } else {
            None
        }
    } else {
        None
    }
}

/// The wall or doorway of kind `kind` on the `side` boundary of cell
/// (`x`, `y`): centred on the boundary, facing the cell it belongs to; a
/// doorway takes the lower half of the wall height.
pub open spec fn upright(maze: MazeView, x: int, y: int, side: Direction, kind: QuadKind) -> Quad {
    let half = kind == QuadKind::Doorway;
    Quad {
        kind,
        cell: Cell { x: x as i64, y: y as i64 },
        side: Some(side),
        center: WorldPos {
            x: (axis_center(x, maze.width) + side.dx() * HALF_PIXEL) as i64,
            y: (if half {
                -3 * (WALL_HEIGHT / 4)
            } else {
                -WALL_HEIGHT / 2
            }) as i64,
            z: (axis_center(y, maze.height) + side.dy() * HALF_PIXEL) as i64,
        },
        width: PIXEL_WORLD_SIZE,
        depth: (if half {
            WALL_HEIGHT / 2
        } else {
            WALL_HEIGHT as int
        }) as i64,
        facing: match side {
            Direction::PosX => Facing::NegX,
            Direction::NegX => Facing::PosX,
            Direction::PosY => Facing::NegZ,
            Direction::NegY => Facing::PosZ,
        },
        material: Material::Wall,
    }
}

/// The quads on one boundary of a cell: none or one.
pub open spec fn boundary_quads(maze: MazeView, x: int, y: int, side: Direction) -> Seq<Quad> {
    match boundary(maze, x, y, side) {
        Some(kind) => seq![upright(maze, x, y, side, kind)],
        None => Seq::empty(),
    }
}

/// The quads of one cell: its tile, then its boundaries towards the next
/// column, the previous column, the next row and the previous row.
pub open spec fn cell_quads(maze: MazeView, x: int, y: int) -> Seq<Quad> {
    seq![tile(maze, x, y)] + boundary_quads(maze, x, y, Direction::PosX) + boundary_quads(
        maze,
        x,
        y,
        Direction::NegX,
    ) + boundary_quads(maze, x, y, Direction::PosY) + boundary_quads(maze, x, y, Direction::NegY)
}

/// The quads of the first `rows` cells of column `x`.
pub open spec fn column_quads(maze: MazeView, x: int, rows: int) -> Seq<Quad>
    decreases rows,
{
    if rows <= 0 {
        Seq::empty()
    } else {
        column_quads(maze, x, rows - 1) + cell_quads(maze, x, rows - 1)
    }
}

/// The quads of the first `columns` columns.
pub open spec fn columns_quads(maze: MazeView, columns: int) -> Seq<Quad>
    decreases columns,
{
    if columns <= 0 {
        Seq::empty()
    } else {
        columns_quads(maze, columns - 1) + column_quads(maze, columns - 1, maze.height)
    }
}

/// The whole scene: every cell's quads, column by column.
pub open spec fn mesh(maze: MazeView) -> Seq<Quad> {
    columns_quads(maze, maze.width)
}

/// Whether `quads` holds a quad of kind `kind` on the `side` boundary of cell (`x`, `y`).
pub open spec fn stands_on(quads: Seq<Quad>, kind: QuadKind, x: int, y: int, side: Direction) -> bool {
    exists|i: int|
        0 <= i < quads.len() && (#[trigger] quads[i]).kind == kind && quads[i].cell.x == x && quads[i].cell.y
            == y && quads[i].side == Some(side)
}

impl MazeGrid {
    /// Executable form of [`tile`].
    fn tile_of(&self, x: usize, y: usize) -> (quad: Quad)
        requires
            self.wf(),
            x < self@.width,
            y < self@.height,
        ensures
            quad == tile(self@, x as int, y as int),
    {
        let cell = Cell { x: x as i64, y: y as i64 };
        let kind = if self.is_exit(cell) {
            QuadKind::ExitFloor
        } else if self.nominally_open(cell) {
            QuadKind::Floor
        } else {
            QuadKind::Roof
        };
        let level: i64 = match kind {
            QuadKind::ExitFloor => -WALL_HEIGHT / 2,
            QuadKind::Floor => -WALL_HEIGHT,
            _ => 0,
        };
        Quad {
            kind,
            cell,
            side: None,
            center: WorldPos {
                x: cell.x * PIXEL_WORLD_SIZE - (self.width() as i64) * HALF_PIXEL,
                y: level,
                z: cell.y * PIXEL_WORLD_SIZE - (self.height() as i64) * HALF_PIXEL,
            },
            width: PIXEL_WORLD_SIZE,
            depth: PIXEL_WORLD_SIZE,
            facing: Facing::Up,
            material: match kind {
                QuadKind::Floor => Material::Ground,
                _ => Material::Grass,
            },
        }
    }

    /// Executable form of [`boundary`].
    fn boundary_of(&self, x: usize, y: usize, side: Direction) -> (kind: Option<QuadKind>)
        requires
            self.wf(),
            x < self@.width,
            y < self@.height,
        ensures
            kind == boundary(self@, x as int, y as int, side),
    {
        let cell = Cell { x: x as i64, y: y as i64 };
        let next = side.neighbour(cell);
        if self.is_exit(cell) {
            if self.is_open(next) {
                Some(QuadKind::Doorway)
            } else {
                Some(QuadKind::Wall)
            }
        } else if self.nominally_open(cell) {
            if !self.is_open(next) {
                Some(QuadKind::Wall)
            } else if self.is_exit(next) && !self.nominally_open(next) {
                Some(QuadKind::Doorway)
            } else {
                None
            }
        } else {
            None
        }
    }

    /// Executable form of [`upright`].
    fn upright_of(&self, x: usize, y: usize, side: Direction, kind: QuadKind) -> (quad: Quad)
        requires
            self.wf(),
            x < self@.width,
            y < self@.height,
        ensures
            quad == upright(self@, x as int, y as int, side, kind),
    {
        let cell = Cell { x: x as i64, y: y as i64 };
        let shift_x: i64 = match side {
            Direction::PosX => HALF_PIXEL,
            Direction::NegX => -HALF_PIXEL,
            _ => 0,
        };
        let shift_z: i64 = match side {
            Direction::PosY => HALF_PIXEL,
            Direction::NegY => -HALF_PIXEL,
            _ => 0,
        };
        let half: bool = match kind {
            QuadKind::Doorway => true,
            _ => false,
        };
        Quad {
            kind,
            cell,
            side: Some(side),
            center: WorldPos {
                x: cell.x * PIXEL_WORLD_SIZE - (self.width() as i64) * HALF_PIXEL + shift_x,
                y: if half {
                    -3 * (WALL_HEIGHT / 4)
                } else {
                    -WALL_HEIGHT / 2
                },
                z: cell.y * PIXEL_WORLD_SIZE - (self.height() as i64) * HALF_PIXEL + shift_z,
            },
            width: PIXEL_WORLD_SIZE,
            depth: if half {
                WALL_HEIGHT / 2
            } else {
                WALL_HEIGHT
            },
            facing: match side {
                Direction::PosX => Facing::NegX,
                Direction::NegX => Facing::PosX,
                Direction::PosY => Facing::NegZ,
                Direction::NegY => Facing::PosZ,
            },
            material: Material::Wall,
        }
    }

    /// Appends the quads of one boundary of a cell to `quads`.
    fn push_boundary(&self, quads: &mut Vec<Quad>, x: usize, y: usize, side: Direction)
        requires
            self.wf(),
            x < self@.width,
            y < self@.height,
        ensures
            final(quads)@ == old(quads)@ + boundary_quads(self@, x as int, y as int, side),
    {
        match self.boundary_of(x, y, side) {
            Some(kind) => {
                let quad = self.upright_of(x, y, side, kind);
                quads.push(quad);
            },
            None => {},
        }
    }

    /// Appends the quads of one cell to `quads`.
    fn push_cell(&self, quads: &mut Vec<Quad>, x: usize, y: usize)
        requires
            self.wf(),
            x < self@.width,
            y < self@.height,
        ensures
            final(quads)@ == old(quads)@ + cell_quads(self@, x as int, y as int),
    {
        let floor = self.tile_of(x, y);
        quads.push(floor);
        self.push_boundary(quads, x, y, Direction::PosX);
        self.push_boundary(quads, x, y, Direction::NegX);
        self.push_boundary(quads, x, y, Direction::PosY);
        self.push_boundary(quads, x, y, Direction::NegY);
        assert(quads@ =~= old(quads)@ + cell_quads(self@, x as int, y as int));
    }

    /// Generates the scene of the maze: for every cell its tile and the
    /// walls and doorways on its boundaries, column by column.
    pub fn build_mesh(&self) -> (quads: Vec<Quad>)
        requires
            self.wf(),
        ensures
            quads@ == mesh(self@),
    {
        let mut quads: Vec<Quad> = Vec::new();
        let mut x: usize = 0;
        while x < self.width()
            invariant
                self.wf(),
                x <= self@.width,
                quads@ == columns_quads(self@, x as int),
            decreases self@.width - x,
        {
            let ghost done = quads@;
            let mut y: usize = 0;
            while y < self.height()
                invariant
                    self.wf(),
                    x < self@.width,
                    y <= self@.height,
                    quads@ == done + column_quads(self@, x as int, y as int),
                decreases self@.height - y,
            {
                self.push_cell(&mut quads, x, y);
                assert(quads@ =~= done + column_quads(self@, x as int, y as int + 1));
                y = y + 1;
            }
            x = x + 1;
        }
        quads
    }
}

} // verus!
