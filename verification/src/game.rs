//! One tick of the game: every rule in its fixed order, on one snapshot of
//! the input.

use vstd::prelude::*;
use crate::camera::{CamInputState, FlyCam, LeaveLabyrinthEvent, PITCH_LIMIT, clamped, player_look, player_move};
use crate::character::{CharacterRegistry, RegistryView, spawned};
use crate::collision::Resolved;
use crate::marker::{Painted, RayHit, draw_markers, painted};
use crate::maze::{MazeGrid, MazeView};
use crate::notification::{Notification, NotificationView, REMINDER_DURATION, update_notification};
use crate::possession::{
    Handover,
    attempt_combine,
    combine_notice,
    exit_notice,
    follow_camera,
    leave_labyrinth,
    pressed_slot,
    switch_character_control,
};
use crate::units::{Movement, WorldPos};

verus! {

/// What the player did since the last tick, and what the world reports.
pub struct InputSnapshot {
    /// Whether the cursor is locked to the window; otherwise the rig
    /// neither turns nor moves.
    pub cursor_locked: bool,
    /// The mouse motion events in order of arrival, each as pitch turn and
    /// yaw turn in millionths of a radian.
    pub turns: Vec<[i64; 2]>,
    /// The displacement that the pressed keys ask for.
    pub movement: Movement,
    /// Where the aim meets a surface, if it does.
    pub hit: Option<RayHit>,
    /// Whether the paint button was just pressed.
    pub paint: bool,
    /// Whether the confirm key was just pressed.
    pub confirm: bool,
    /// Which of the three selection keys were just pressed.
    pub select: [bool; 3],
    /// Microseconds since startup.
    pub now: u64,
}

/// What a tick asks the world to do.
pub struct TickOutcome {
    /// The exit crossing of this tick.
    pub event: Option<LeaveLabyrinthEvent>,
    /// The slots whose characters were absorbed.
    pub gone: Vec<usize>,
    /// What to paint.
    pub painted: Painted,
    /// The change of possession.
    pub handover: Option<Handover>,
    /// Whether the notification ran out at the start of the tick.
    pub expired: bool,
}

/// The whole state of a running game.
pub struct Game {
    pub grid: MazeGrid,
    pub registry: CharacterRegistry,
    pub cam: FlyCam,
    pub notification: Notification,
}

/// The mathematical content of a [`Game`].
pub struct GameView {
    pub maze: MazeView,
    pub registry: RegistryView,
    pub cam: FlyCam,
    pub notification: NotificationView,
}

impl View for Game {
    type V = GameView;

    open spec fn view(&self) -> GameView {
        GameView {
            maze: self.grid@,
            registry: self.registry@,
            cam: self.cam,
            notification: self.notification@,
        }
    }
}

/// The look orientation after one mouse motion event.
pub open spec fn turned(look: CamInputState, cursor_locked: bool, turn: [i64; 2]) -> CamInputState {
    CamInputState {
        pitch: clamped(
            if cursor_locked {
                look.pitch - turn[0]
            } else {
                look.pitch as int
            },
            PITCH_LIMIT as int,
        ) as i64,
        yaw: if cursor_locked {
            (look.yaw - turn[1]) as i64
        } else {
            look.yaw
        },
    }
}

/// The look orientation after the mouse motion events `turns`, in order.
pub open spec fn looked(look: CamInputState, cursor_locked: bool, turns: Seq<[i64; 2]>) -> CamInputState
    decreases turns.len(),
{
    if turns.len() == 0 {
        look
    } else {
        turned(looked(look, cursor_locked, turns.drop_last()), cursor_locked, turns.last())
    }
}

/// Whether the yaw stays within the range of its type all through the
/// mouse motion events `turns`.
pub open spec fn turns_fit(look: CamInputState, cursor_locked: bool, turns: Seq<[i64; 2]>) -> bool
    decreases turns.len(),
{
    turns.len() == 0 || {
        &&& turns_fit(look, cursor_locked, turns.drop_last())
        &&& cursor_locked ==> i64::MIN <= looked(look, cursor_locked, turns.drop_last()).yaw - turns.last()[1]
            <= i64::MAX
    }
}

impl GameView {
    /// The invariant of a game: a valid maze and a valid registry.
    pub open spec fn valid(self) -> bool {
        self.maze.valid() && self.registry.valid()
    }

    /// The corrected displacement of the rig in a tick; nothing where the
    /// cursor is not locked.
    pub open spec fn resolved(self, input: InputSnapshot) -> Resolved {
        if input.cursor_locked {
            self.maze.resolve(
                self.cam.position.x as int,
                self.cam.position.z as int,
                input.movement.x as int,
                input.movement.z as int,
            )
        } else {
            Resolved { dx: 0, dz: 0, crossed_exit: false }
        }
    }

    /// The rig after looking and moving, before any change of possession.
    pub open spec fn rig_moved(self, input: InputSnapshot) -> FlyCam {
        FlyCam {
            position: WorldPos {
                x: (self.cam.position.x + self.resolved(input).dx) as i64,
                y: self.cam.position.y,
                z: (self.cam.position.z + self.resolved(input).dz) as i64,
            },
            look: looked(self.cam.look, input.cursor_locked, input.turns@),
        }
    }

    /// The registry after the possessed character was forced to the rig.
    pub open spec fn synced(self, input: InputSnapshot) -> RegistryView {
        self.registry.with_position(self.registry.controlled, self.rig_moved(input).position)
    }

    /// The registry after merging, before any change of possession.
    pub open spec fn merged(self, input: InputSnapshot) -> RegistryView {
        self.synced(input).after_combine(input.confirm)
    }

    /// The part number that the selection keys of a tick ask for.
    pub open spec fn selected(input: InputSnapshot) -> u8 {
        if input.select[0] {
            1
        } else if input.select[1] {
            2
        } else if input.select[2] {
            3
        } else {
            0
        }
    }

    /// The game after one tick. In this order: a notification whose time
    /// has passed is removed; the rig looks and moves, corrected by the
    /// maze; the possessed character is forced to the rig; characters in
    /// reach are merged or hinted at; the exit crossing is evaluated for
    /// the character as merged; and last, control changes hands.
    pub open spec fn ticked(self, input: InputSnapshot) -> GameView {
        let rig = self.rig_moved(input);
        let synced = self.synced(input);
        let merged = self.merged(input);
        GameView {
            maze: self.maze,
            registry: merged.after_switch(rig.look, GameView::selected(input)),
            cam: merged.rig_after_switch(rig, GameView::selected(input)),
            notification: exit_notice(
                combine_notice(self.notification.after_expiry(input.now), synced.any_in_reach(), input.confirm),
                self.resolved(input).crossed_exit,
                merged.complete(),
                input.now,
            ),
        }
    }
}

impl Game {
    /// The invariant that every game satisfies.
    pub open spec fn wf(&self) -> bool {
        self@.valid()
    }

    /// Starts a game in the maze `grid` with the rig at `cam`: the
    /// characters are spawned and nothing is shown.
    pub fn start(grid: MazeGrid, cam: FlyCam) -> (game: Game)
        requires
            grid.wf(),
        ensures
            game.wf(),
            game@ == (GameView {
                maze: grid@,
                registry: spawned(grid@),
                cam,
                notification: NotificationView { remove_when: None, text: None },
            }),
    {
        let registry = CharacterRegistry::spawn(&grid);
        Game { grid, registry, cam, notification: Notification::default() }
    }

    /// Turns the rig by the mouse motion events of the tick.
    fn look(&mut self, input: &InputSnapshot)
        requires
            turns_fit(old(self).cam.look, input.cursor_locked, input.turns@),
        ensures
            final(self).cam.look == looked(old(self).cam.look, input.cursor_locked, input.turns@),
            final(self).cam.position == old(self).cam.position,
            final(self).grid == old(self).grid,
            final(self).registry == old(self).registry,
            final(self).notification == old(self).notification,
    {
        let mut i: usize = 0;
        while i < input.turns.len()
            invariant
                i <= input.turns.len(),
                turns_fit(old(self).cam.look, input.cursor_locked, input.turns@),
                self.cam.look == looked(old(self).cam.look, input.cursor_locked, input.turns@.take(i as int)),
                self.cam.position == old(self).cam.position,
                self.grid == old(self).grid,
                self.registry == old(self).registry,
                self.notification == old(self).notification,
            decreases input.turns.len() - i,
        {
            let turn = input.turns[i];
            proof {
                let upto = input.turns@.take(i as int + 1);
                assert(upto.drop_last() =~= input.turns@.take(i as int));
                assert(upto.last() == turn);
                lemma_turns_fit_prefix(old(self).cam.look, input.cursor_locked, input.turns@, i as int + 1);
            }
            player_look(&mut self.cam.look, input.cursor_locked, turn[0], turn[1]);
            i = i + 1;
        }
        assert(input.turns@.take(input.turns.len() as int) =~= input.turns@);
    }

    /// Plays one tick on the snapshot `input` and tells the world what to do.
    pub fn tick(&mut self, input: &InputSnapshot) -> (outcome: TickOutcome)
        requires
            old(self).wf(),
            turns_fit(old(self).cam.look, input.cursor_locked, input.turns@),
            i64::MIN <= old(self).cam.position.x + input.movement.x <= i64::MAX,
            i64::MIN <= old(self).cam.position.z + input.movement.z <= i64::MAX,
            input.now + REMINDER_DURATION <= u64::MAX,
        ensures
            final(self).wf(),
            final(self)@ == old(self)@.ticked(*input),
            final(self)@.registry.succeeds(old(self)@.registry),
            outcome.expired == old(self)@.notification.expired_at(input.now),
            outcome.event is Some <==> old(self)@.resolved(*input).crossed_exit,
            outcome.gone@ == old(self)@.synced(*input).gone_after_combine(input.confirm),
            outcome.painted == painted(
                input.hit,
                old(self)@.rig_moved(*input).position,
                old(self)@.registry.slots[old(self)@.registry.controlled]->0.color,
                input.paint,
            ),
            outcome.handover == old(self)@.merged(*input).handover(GameView::selected(*input)),
    {
        let expired = update_notification(&mut self.notification, input.now);
        self.look(input);
        let event = player_move(&self.grid, input.cursor_locked, &mut self.cam, input.movement);
        follow_camera(&mut self.registry, &self.cam);
        let ghost synced = self.registry@;
        let gone = attempt_combine(&mut self.registry, &mut self.notification, input.confirm);
        proof {
            crate::possession::lemma_combined(synced, synced.slots.len() as int);
            crate::possession::lemma_succeeds_transitive(old(self)@.registry, synced, self.registry@);
        }
        let ghost merged = self.registry@;
        let painted = draw_markers(input.hit, &self.registry, input.paint);
        leave_labyrinth(event, &self.registry, &mut self.notification, input.now);
        let pressed = pressed_slot(input.select[0], input.select[1], input.select[2]);
        let handover = switch_character_control(&mut self.registry, &mut self.cam, pressed);
        proof {
            crate::possession::lemma_succeeds_transitive(old(self)@.registry, merged, self.registry@);
        }
        TickOutcome { event, gone, painted, handover, expired }
    }
}

/// Events that fit as a whole fit up to any event among them.
proof fn lemma_turns_fit_prefix(look: CamInputState, cursor_locked: bool, turns: Seq<[i64; 2]>, upto: int)
    requires
        turns_fit(look, cursor_locked, turns),
        0 <= upto <= turns.len(),
    ensures
        turns_fit(look, cursor_locked, turns.take(upto)),
    decreases turns.len(),
{
    if upto < turns.len() {
        lemma_turns_fit_prefix(look, cursor_locked, turns.drop_last(), upto);
        assert(turns.drop_last().take(upto) =~= turns.take(upto));
    } else {
        assert(turns.take(upto) =~= turns);
    }
}

} // verus!
