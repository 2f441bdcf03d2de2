//! Agreement of the generated scene with collision resolution: a wall
//! stands exactly where a displacement is stopped.

use vstd::prelude::*;
use crate::collision::reach;
use crate::maze::{MazeView, axis_offset};
use crate::mesh::{
    Direction,
    Quad,
    QuadKind,
    boundary,
    boundary_quads,
    cell_quads,
    column_quads,
    columns_quads,
    mesh,
    stands_on,
    tile,
    upright,
};

verus! {

/// A concatenation holds what either part holds.
proof fn lemma_concat_contains(a: Seq<Quad>, b: Seq<Quad>, q: Quad)
    ensures
        (a + b).contains(q) <==> a.contains(q) || b.contains(q),
{
    if (a + b).contains(q) {
        let i = choose|i: int| 0 <= i < (a + b).len() && (a + b)[i] == q;
        if i < a.len() {
            assert(a[i] == q);
        } else {
            assert(b[i - a.len()] == q);
        }
    }
    if a.contains(q) {
        let i = choose|i: int| 0 <= i < a.len() && a[i] == q;
        assert((a + b)[i] == q);
    }
    if b.contains(q) {
        let i = choose|i: int| 0 <= i < b.len() && b[i] == q;
        assert((a + b)[i + a.len()] == q);
    }
}

/// Whether `q` is the wall or doorway on the `side` boundary of cell (`x`, `y`).
spec fn is_boundary_quad(maze: MazeView, x: int, y: int, side: Direction, q: Quad) -> bool {
    boundary(maze, x, y, side) matches Some(kind) && q == upright(maze, x, y, side, kind)
}

/// The quads of a cell are its tile and its four boundaries.
proof fn lemma_cell_member(maze: MazeView, x: int, y: int, q: Quad)
    ensures
        cell_quads(maze, x, y).contains(q) <==> q == tile(maze, x, y) || is_boundary_quad(
            maze,
            x,
            y,
            Direction::PosX,
            q,
        ) || is_boundary_quad(maze, x, y, Direction::NegX, q) || is_boundary_quad(
            maze,
            x,
            y,
            Direction::PosY,
            q,
        ) || is_boundary_quad(maze, x, y, Direction::NegY, q),
{
    let t = seq![tile(maze, x, y)];
    let a = boundary_quads(maze, x, y, Direction::PosX);
    let b = boundary_quads(maze, x, y, Direction::NegX);
    let c = boundary_quads(maze, x, y, Direction::PosY);
    let d = boundary_quads(maze, x, y, Direction::NegY);
    lemma_concat_contains(t, a, q);
    lemma_concat_contains(t + a, b, q);
    lemma_concat_contains(t + a + b, c, q);
    lemma_concat_contains(t + a + b + c, d, q);
    assert(t.contains(q) <==> q == tile(maze, x, y)) by {
        assert(t[0] == tile(maze, x, y));
    }
    lemma_boundary_member(maze, x, y, Direction::PosX, q);
    lemma_boundary_member(maze, x, y, Direction::NegX, q);
    lemma_boundary_member(maze, x, y, Direction::PosY, q);
    lemma_boundary_member(maze, x, y, Direction::NegY, q);
}

/// A boundary holds its wall or doorway and nothing else.
proof fn lemma_boundary_member(maze: MazeView, x: int, y: int, side: Direction, q: Quad)
    ensures
        boundary_quads(maze, x, y, side).contains(q) <==> is_boundary_quad(maze, x, y, side, q),
{
    let s = boundary_quads(maze, x, y, side);
    match boundary(maze, x, y, side) {
        Some(kind) => {
            assert(s[0] == upright(maze, x, y, side, kind));
        },
        None => {},
    }
}

/// The first `rows` cells of a column hold the quads of each of these cells.
proof fn lemma_column_member(maze: MazeView, x: int, rows: int, q: Quad)
    ensures
        column_quads(maze, x, rows).contains(q) <==> exists|y: int|
            0 <= y < rows && #[trigger] cell_quads(maze, x, y).contains(q),
    decreases rows,
{
    if rows > 0 {
        lemma_column_member(maze, x, rows - 1, q);
        lemma_concat_contains(column_quads(maze, x, rows - 1), cell_quads(maze, x, rows - 1), q);
        if column_quads(maze, x, rows).contains(q) {
            if cell_quads(maze, x, rows - 1).contains(q) {
            } else {
                let y = choose|y: int| 0 <= y < rows - 1 && #[trigger] cell_quads(maze, x, y).contains(q);
                assert(0 <= y < rows && cell_quads(maze, x, y).contains(q));
            }
        }
    }
}

/// The first `columns` columns hold the quads of each of their cells.
proof fn lemma_columns_member(maze: MazeView, columns: int, q: Quad)
    ensures
        columns_quads(maze, columns).contains(q) <==> exists|x: int, y: int|
            0 <= x < columns && 0 <= y < maze.height && #[trigger] cell_quads(maze, x, y).contains(q),
    decreases columns,
{
    if columns > 0 {
        lemma_columns_member(maze, columns - 1, q);
        lemma_column_member(maze, columns - 1, maze.height, q);
        lemma_concat_contains(
            columns_quads(maze, columns - 1),
            column_quads(maze, columns - 1, maze.height),
            q,
        );
        if columns_quads(maze, columns).contains(q) {
            if columns_quads(maze, columns - 1).contains(q) {
                let (x, y) = choose|x: int, y: int|
                    0 <= x < columns - 1 && 0 <= y < maze.height && #[trigger] cell_quads(maze, x, y).contains(
                        q,
                    );
                assert(0 <= x < columns && 0 <= y < maze.height && cell_quads(maze, x, y).contains(q));
            } else {
                let y = choose|y: int|
                    0 <= y < maze.height && #[trigger] cell_quads(maze, columns - 1, y).contains(q);
                assert(0 <= columns - 1 < columns && cell_quads(maze, columns - 1, y).contains(q));
            }
        }
    }
}

/// The scene holds a quad of kind `kind` on a boundary exactly where
/// [`boundary`] puts one, and only on boundaries of cells inside the grid.
pub proof fn lemma_scene_boundaries(maze: MazeView, kind: QuadKind, x: int, y: int, side: Direction)
    requires
        maze.valid(),
        kind == QuadKind::Wall || kind == QuadKind::Doorway,
    ensures
        stands_on(mesh(maze), kind, x, y, side) <==> maze.in_bounds(x, y) && boundary(maze, x, y, side)
            == Some(kind),
{
    let scene = mesh(maze);
    if stands_on(scene, kind, x, y, side) {
        let i = choose|i: int|
            0 <= i < scene.len() && (#[trigger] scene[i]).kind == kind && scene[i].cell.x == x
                && scene[i].cell.y == y && scene[i].side == Some(side);
        let q = scene[i];
        assert(scene.contains(q));
        lemma_columns_member(maze, maze.width, q);
        let (cx, cy) = choose|cx: int, cy: int|
            0 <= cx < maze.width && 0 <= cy < maze.height && #[trigger] cell_quads(maze, cx, cy).contains(q);
        lemma_cell_member(maze, cx, cy, q);
        assert(cx == x && cy == y);
    }
    if maze.in_bounds(x, y) && boundary(maze, x, y, side) == Some(kind) {
        let q = upright(maze, x, y, side, kind);
        assert(is_boundary_quad(maze, x, y, side, q));
        lemma_cell_member(maze, x, y, q);
        assert(0 <= x < maze.width && 0 <= y < maze.height && cell_quads(maze, x, y).contains(q));
        lemma_columns_member(maze, maze.width, q);
        let i = choose|i: int| 0 <= i < scene.len() && scene[i] == q;
        assert(scene[i].kind == kind && scene[i].cell.x == x && scene[i].cell.y == y && scene[i].side
            == Some(side));
    }
}

/// A wall stands on a boundary of a cell exactly when the cell is open and
/// the neighbour across that boundary is closed.
pub proof fn lemma_wall_iff_closed_neighbour(maze: MazeView, x: int, y: int, side: Direction)
    requires
        maze.valid(),
    ensures
        stands_on(mesh(maze), QuadKind::Wall, x, y, side) <==> maze.is_open(x, y) && !maze.is_open(
            x + side.dx(),
            y + side.dy(),
        ),
{
    lemma_scene_boundaries(maze, QuadKind::Wall, x, y, side);
}

/// The displacement of `step` fixed-point steps towards `side`, by axis.
pub open spec fn towards(side: Direction, step: int) -> (int, int) {
    match side {
        Direction::PosX => (step, 0),
        Direction::NegX => (-step, 0),
        Direction::PosY => (0, step),
        Direction::NegY => (0, -step),
    }
}

/// Scene and collision agree. For an actor in an open cell and a
/// displacement straight towards one side that carries the actor's disc
/// over that boundary of the cell: the displacement is stopped exactly when
/// a wall stands on that boundary.
pub proof fn lemma_walls_match_collisions(maze: MazeView, x: int, z: int, side: Direction, step: int)
    requires
        maze.valid(),
        maze.is_open(maze.cell_at(x, z).0, maze.cell_at(x, z).1),
        step > 0,
        reach(axis_offset(x, maze.width), towards(side, step).0) != 0 || reach(
            axis_offset(z, maze.height),
            towards(side, step).1,
        ) != 0,
    ensures
        ({
            let cell = maze.cell_at(x, z);
            let wanted = towards(side, step);
            let r = maze.resolve(x, z, wanted.0, wanted.1);
            &&& stands_on(mesh(maze), QuadKind::Wall, cell.0, cell.1, side) <==> r.dx == 0 && r.dz == 0
            &&& !stands_on(mesh(maze), QuadKind::Wall, cell.0, cell.1, side) <==> r.dx == wanted.0 && r.dz
                == wanted.1
        }),
{
    let cell = maze.cell_at(x, z);
    lemma_wall_iff_closed_neighbour(maze, cell.0, cell.1, side);
}

/// A wall stops every displacement, straight or not, that carries the
/// actor's disc over the boundary on which the wall stands.
pub proof fn lemma_wall_stops(maze: MazeView, x: int, z: int, dx: int, dz: int, side: Direction)
    requires
        maze.valid(),
        stands_on(mesh(maze), QuadKind::Wall, maze.cell_at(x, z).0, maze.cell_at(x, z).1, side),
        side.dx() != 0 ==> reach(axis_offset(x, maze.width), dx) == side.dx(),
        side.dy() != 0 ==> reach(axis_offset(z, maze.height), dz) == side.dy(),
    ensures
        side.dx() != 0 ==> maze.resolve(x, z, dx, dz).dx == 0,
        side.dy() != 0 ==> maze.resolve(x, z, dx, dz).dz == 0,
{
    let cell = maze.cell_at(x, z);
    lemma_wall_iff_closed_neighbour(maze, cell.0, cell.1, side);
}

/// A doorway stands only where the way is free: on a boundary between the
/// exit cell and an open cell.
pub proof fn lemma_doorway_is_passable(maze: MazeView, x: int, y: int, side: Direction)
    requires
        maze.valid(),
        stands_on(mesh(maze), QuadKind::Doorway, x, y, side),
    ensures
        maze.is_open(x, y),
        maze.is_open(x + side.dx(), y + side.dy()),
        maze.is_exit(x, y) || maze.is_exit(x + side.dx(), y + side.dy()),
{
    lemma_scene_boundaries(maze, QuadKind::Doorway, x, y, side);
}

} // verus!
