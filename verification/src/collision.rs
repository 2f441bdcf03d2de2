//! Resolving a desired displacement against the maze, one axis at a time.
//!
//! The actor is a disc of radius [`PLAYER_RADIUS`] inside one cell. A
//! displacement that would carry the disc over a boundary of its cell is
//! checked against the neighbouring cell on that side, and where both axes
//! are affected, against the cell across the corner.

use vstd::prelude::*;
use crate::maze::{Cell, MazeGrid, MazeView, axis_cell, axis_offset, cell_index, cell_offset};
use crate::units::{Movement, PIXEL_WORLD_SIZE, PLAYER_RADIUS, WorldPos};

verus! {

/// What [`MazeGrid::resolve`] returns: the displacement to apply, and
/// whether the actor reached into the exit cell.
#[derive(Clone, Copy, Debug, PartialEq, Eq, Structural)]
pub struct Resolution {
    pub movement: Movement,
    pub crossed_exit: bool,
}

/// A [`Resolution`] over the integers.
pub struct Resolved {
    pub dx: int,
    pub dz: int,
    pub crossed_exit: bool,
}

/// Towards which neighbour along one axis the disc leaves its cell when it
/// moves by `delta` from `offset` inside the cell: `1` for the higher
/// neighbour, `-1` for the lower, `0` when it stays inside.
pub open spec fn reach(offset: int, delta: int) -> int {
    if delta > 0 && offset + PLAYER_RADIUS + delta > PIXEL_WORLD_SIZE {
        1
    } else if delta < 0 && offset - PLAYER_RADIUS + delta < 0 {
        -1
    } else {
        0
    }
}

/// Absolute value.
pub open spec fn magnitude(v: int) -> int {
    if v < 0 {
        -v
    } else {
        v
    }
}

impl MazeView {
    /// The corrected displacement for an actor at (`x`, `z`) that wants to
    /// move by (`dx`, `dz`).
    ///
    /// First the Z axis: where the disc would leave its cell, a closed
    /// neighbour stops the Z part, and the exit cell as neighbour is
    /// recorded as crossed. Then the X axis, if the disc would leave its
    /// cell along X: where it would still leave along Z too and the cell
    /// across that corner is closed, the part of larger magnitude is
    /// stopped (of equal parts, the X part); after that the X neighbour is
    /// examined as the Z neighbour was.
    pub open spec fn resolve(self, x: int, z: int, dx: int, dz: int) -> Resolved {
        let (cx, cy) = self.cell_at(x, z);
        let ox = axis_offset(x, self.width);
        let oz = axis_offset(z, self.height);
        let rz = reach(oz, dz);
        let z1 = if rz != 0 && !self.is_open(cx, cy + rz) {
            0
        } else {
            dz
        };
        let exit_z = rz != 0 && self.is_exit(cx, cy + rz);
        let rx = reach(ox, dx);
        if rx == 0 {
            Resolved { dx, dz: z1, crossed_exit: exit_z }
        } else {
            let rz1 = reach(oz, z1);
            let corner = rz1 != 0 && !self.is_open(cx + rx, cy + rz1);
            let z2 = if corner && magnitude(z1) > magnitude(dx) {
                0
            } else {
                z1
            };
            let x1 = if corner && magnitude(z1) <= magnitude(dx) {
                0
            } else {
                dx
            };
            let x2 = if !self.is_open(cx + rx, cy) {
                0
            } else {
                x1
            };
            let exit_x = self.is_exit(cx + rx, cy);
            Resolved { dx: x2, dz: z2, crossed_exit: exit_z || exit_x }
        }
    }
}

/// Executable form of [`reach`].
fn reach_of(offset: i64, delta: i64) -> (side: i64)
    requires
        0 <= offset < PIXEL_WORLD_SIZE,
    ensures
        side == reach(offset as int, delta as int),
        -1 <= side <= 1,
{
    let o: i128 = offset as i128;
    let d: i128 = delta as i128;
    let r: i128 = PLAYER_RADIUS as i128;
    if d > 0 && o + r + d > PIXEL_WORLD_SIZE as i128 {
        1
    } else if d < 0 && o - r + d < 0 {
        -1
    } else {
        0
    }
}

/// Executable form of [`magnitude`].
fn magnitude_of(v: i64) -> (m: i128)
    ensures
        m == magnitude(v as int),
{
    let wide: i128 = v as i128;
    if wide < 0 {
        -wide
    } else {
        wide
    }
}

impl MazeGrid {
    /// Corrects the displacement `movement` of an actor at `pos` so that it
    /// slides along walls, and tells whether the actor reached into the exit
    /// cell. The caller adds the corrected displacement to the position.
    pub fn resolve(&self, pos: WorldPos, movement: Movement) -> (resolution: Resolution)
        requires
            self.wf(),
        ensures
            resolution.movement.x == self@.resolve(
                pos.x as int,
                pos.z as int,
                movement.x as int,
                movement.z as int,
            ).dx,
            resolution.movement.z == self@.resolve(
                pos.x as int,
                pos.z as int,
                movement.x as int,
                movement.z as int,
            ).dz,
            resolution.crossed_exit == self@.resolve(
                pos.x as int,
                pos.z as int,
                movement.x as int,
                movement.z as int,
            ).crossed_exit,
    {
        let cx: i64 = cell_index(pos.x, self.width());
        let cy: i64 = cell_index(pos.z, self.height());
        let ox: i64 = cell_offset(pos.x, self.width());
        let oz: i64 = cell_offset(pos.z, self.height());
        let mut dx: i64 = movement.x;
        let mut dz: i64 = movement.z;
        let mut crossed: bool = false;

        let rz: i64 = reach_of(oz, dz);
        if rz != 0 {
            let ahead = Cell { x: cx, y: cy + rz };
            if !self.is_open(ahead) {
                dz = 0;
            }
            if self.is_exit(ahead) {
                crossed = true;
            }
        }
        let rx: i64 = reach_of(ox, dx);
        if rx != 0 {
            let rz1: i64 = reach_of(oz, dz);
            if rz1 != 0 && !self.is_open(Cell { x: cx + rx, y: cy + rz1 }) {
                if magnitude_of(dz) > magnitude_of(dx) {
                    dz = 0;
                } else {
                    dx = 0;
                }
            }
            let beside = Cell { x: cx + rx, y: cy };
            if !self.is_open(beside) {
                dx = 0;
            }
            if self.is_exit(beside) {
                crossed = true;
            }
        }
        Resolution { movement: Movement { x: dx, z: dz }, crossed_exit: crossed }
    }
}

/// Moving by `delta` along one axis changes the cell index by the number of
/// whole cells that offset and displacement add up to.
pub proof fn lemma_axis_cell_shift(coord: int, delta: int, side: int)
    ensures
        axis_cell(coord + delta, side) == axis_cell(coord, side) + (axis_offset(coord, side) + delta) / (
        PIXEL_WORLD_SIZE as int),
{
    let s = PIXEL_WORLD_SIZE as int;
    let shifted = coord + (side + 1) * 350_000;
    vstd::arithmetic::div_mod::lemma_fundamental_div_mod(shifted, s);
    vstd::arithmetic::div_mod::lemma_hoist_over_denominator(shifted % s + delta, shifted / s, s as nat);
    assert(shifted + delta == shifted % s + delta + (shifted / s) * s) by (nonlinear_arith)
        requires
            shifted == s * (shifted / s) + shifted % s,
    ;
}

/// A corrected displacement never carries an actor from an open cell into a
/// closed one, as long as it ends in the cell it started in or in one of
/// the eight cells around it.
pub proof fn lemma_resolve_stays_open(grid: MazeView, x: int, z: int, dx: int, dz: int)
    requires
        grid.valid(),
        grid.is_open(grid.cell_at(x, z).0, grid.cell_at(x, z).1),
        ({
            let r = grid.resolve(x, z, dx, dz);
            let from = grid.cell_at(x, z);
            let to = grid.cell_at(x + r.dx, z + r.dz);
            from.0 - 1 <= to.0 <= from.0 + 1 && from.1 - 1 <= to.1 <= from.1 + 1
        }),
    ensures
        ({
            let r = grid.resolve(x, z, dx, dz);
            let to = grid.cell_at(x + r.dx, z + r.dz);
            grid.is_open(to.0, to.1)
        }),
{
    let r = grid.resolve(x, z, dx, dz);
    let s = PIXEL_WORLD_SIZE as int;
    let ox = axis_offset(x, grid.width);
    let oz = axis_offset(z, grid.height);
    lemma_axis_cell_shift(x, r.dx, grid.width);
    lemma_axis_cell_shift(z, r.dz, grid.height);
    vstd::arithmetic::div_mod::lemma_mod_bound(x + (grid.width + 1) * 350_000, s);
    vstd::arithmetic::div_mod::lemma_mod_bound(z + (grid.height + 1) * 350_000, s);
    lemma_whole_cells(ox + r.dx);
    lemma_whole_cells(oz + r.dz);
}

/// The quotient by the cell size, on the three cells around zero.
proof fn lemma_whole_cells(v: int)
    ensures
        (v / (PIXEL_WORLD_SIZE as int) == 0) <==> 0 <= v < PIXEL_WORLD_SIZE,
        (v / (PIXEL_WORLD_SIZE as int) == 1) <==> PIXEL_WORLD_SIZE <= v < 2 * PIXEL_WORLD_SIZE,
        (v / (PIXEL_WORLD_SIZE as int) == -1) <==> -PIXEL_WORLD_SIZE <= v < 0,
{
}

} // verus!
