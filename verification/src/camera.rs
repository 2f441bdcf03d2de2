//! The free-look camera rig: where it looks and how it moves through the maze.

use vstd::prelude::*;
use crate::maze::MazeGrid;
use crate::units::{Movement, WorldPos};

verus! {

/// Largest pitch up or down: 1.54 radians, a little short of straight up.
pub const PITCH_LIMIT: i64 = 1_540_000;

/// A look orientation, in millionths of a radian.
#[derive(Clone, Copy, Debug, PartialEq, Eq, Structural)]
pub struct CamInputState {
    pub pitch: i64,
    pub yaw: i64,
}

impl Default for CamInputState {
    /// Looking straight ahead.
    fn default() -> (state: CamInputState)
        ensures
            state == (CamInputState { pitch: 0, yaw: 0 }),
    {
        CamInputState { pitch: 0, yaw: 0 }
    }
}

/// The camera rig that the player steers. While a character is possessed,
/// the rig's position is the authority for that character's position.
#[derive(Clone, Copy, Debug, PartialEq, Eq, Structural)]
pub struct FlyCam {
    pub position: WorldPos,
    pub look: CamInputState,
}

/// Raised when the actor reaches into the exit cell.
#[derive(Clone, Copy, Debug, PartialEq, Eq, Structural)]
pub struct LeaveLabyrinthEvent;

/// `value` limited to the range from `-limit` to `limit`.
pub open spec fn clamped(value: int, limit: int) -> int {
    if value < -limit {
        -limit
    } else if value > limit {
        limit
    } else {
        value
    }
}

/// Turns the look orientation against the mouse motion of one event:
/// `pitch_turn` and `yaw_turn` are that motion, already scaled to millionths
/// of a radian. An unlocked cursor turns nothing. Either way the pitch is
/// brought back within [`PITCH_LIMIT`].
pub fn player_look(state: &mut CamInputState, cursor_locked: bool, pitch_turn: i64, yaw_turn: i64)
    requires
        cursor_locked ==> i64::MIN <= old(state).yaw - yaw_turn <= i64::MAX,
    ensures
        final(state).pitch == clamped(
            if cursor_locked {
                old(state).pitch - pitch_turn
            } else {
                old(state).pitch as int
            },
            PITCH_LIMIT as int,
        ),
        final(state).yaw == if cursor_locked {
            old(state).yaw - yaw_turn
        } else {
            old(state).yaw as int
        },
{
    let mut pitch: i128 = state.pitch as i128;
    if cursor_locked {
        pitch = pitch - pitch_turn as i128;
        state.yaw = state.yaw - yaw_turn;
    }
    if pitch < -(PITCH_LIMIT as i128) {
        pitch = -(PITCH_LIMIT as i128);
    } else if pitch > PITCH_LIMIT as i128 {
        pitch = PITCH_LIMIT as i128;
    }
    state.pitch = pitch as i64;
}

/// Moves the rig through the maze by the displacement that the pressed
/// keys ask for, corrected by [`MazeGrid::resolve`]. An unlocked cursor
/// moves nothing. Returns the exit-crossing event of this tick, if any.
pub fn player_move(grid: &MazeGrid, cursor_locked: bool, cam: &mut FlyCam, movement: Movement) -> (event:
    Option<LeaveLabyrinthEvent>)
    requires
        grid.wf(),
        i64::MIN <= old(cam).position.x + movement.x <= i64::MAX,
        i64::MIN <= old(cam).position.z + movement.z <= i64::MAX,
    ensures
        !cursor_locked ==> *final(cam) == *old(cam) && event is None,
        cursor_locked ==> ({
            let r = grid@.resolve(
                old(cam).position.x as int,
                old(cam).position.z as int,
                movement.x as int,
                movement.z as int,
            );
            &&& final(cam).position.x == old(cam).position.x + r.dx
            &&& final(cam).position.y == old(cam).position.y
            &&& final(cam).position.z == old(cam).position.z + r.dz
            &&& final(cam).look == old(cam).look
            &&& event is Some <==> r.crossed_exit
        }),
{
    if !cursor_locked {
        return None;
    }
    let resolution = grid.resolve(cam.position, movement);
    cam.position.x = cam.position.x + resolution.movement.x;
    cam.position.z = cam.position.z + resolution.movement.z;
    if resolution.crossed_exit {
        Some(LeaveLabyrinthEvent)
    } else {
        None
    }
}

} // verus!
