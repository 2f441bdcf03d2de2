//! Possession: which character the player steers, how control is handed
//! from one character to another, how characters merge, and what happens
//! at the exit.

use vstd::prelude::*;
use crate::camera::{CamInputState, FlyCam, LeaveLabyrinthEvent};
use crate::character::{CharacterRegistry, RegistryView, lemma_absorbed_valid};
use crate::notification::{
    Notification,
    NotificationView,
    REMINDER_DURATION,
    combine_hint,
    reminder_text,
    won_text,
};
use crate::units::{PLAYER_RADIUS, closer_than, within_reach};

verus! {

/// A completed change of possession: the slot that gave up control and the
/// slot that took it.
#[derive(Clone, Copy, Debug, PartialEq, Eq, Structural)]
pub struct Handover {
    pub released: usize,
    pub possessed: usize,
}

/// The part number that the selection keys ask for: the lowest of the three
/// keys that was just pressed, or zero when none was.
pub fn pressed_slot(first: bool, second: bool, third: bool) -> (number: u8)
    ensures
        number == if first {
            1u8
        } else if second {
            2u8
        } else if third {
            3u8
        } else {
            0u8
        },
{
    if first {
        1
    } else if second {
        2
    } else if third {
        3
    } else {
        0
    }
}

impl RegistryView {
    /// The slot that takes control when part `number` is selected: the
    /// living character that stands for that part, unless it is possessed
    /// already.
    pub open spec fn switch_target(self, number: u8) -> Option<int> {
        if self.held(number) && self.holder(number) != self.controlled {
            Some(self.holder(number))
        } else {
            None
        }
    }

    /// The registry after part `number` was selected while the rig looked
    /// along `look`: where control changes hands, `look` is saved with the
    /// character that gives up control and the new character is possessed.
    pub open spec fn after_switch(self, look: CamInputState, number: u8) -> RegistryView {
        match self.switch_target(number) {
            Some(target) => self.with_look(self.controlled, look).with_controlled(target),
            None => self,
        }
    }

    /// The rig after part `number` was selected: where control changes
    /// hands, the rig takes the place and the saved look of the new character.
    pub open spec fn rig_after_switch(self, cam: FlyCam, number: u8) -> FlyCam {
        match self.switch_target(number) {
            Some(target) => FlyCam {
                position: self.slots[target]->0.position,
                look: self.slots[target]->0.look,
            },
            None => cam,
        }
    }

    /// The change of possession that selecting part `number` brings about.
    pub open spec fn handover(self, number: u8) -> Option<Handover> {
        match self.switch_target(number) {
            Some(target) => Some(Handover { released: self.controlled as usize, possessed: target as usize }),
            None => None,
        }
    }

    /// Whether the character in slot `j` lives, is not possessed, and
    /// stands closer than two radii to the possessed character.
    pub open spec fn in_reach(self, j: int) -> bool {
        &&& self.alive(j)
        &&& j != self.controlled
        &&& closer_than(
            self.slots[j]->0.position,
            self.slots[self.controlled]->0.position,
            2 * PLAYER_RADIUS,
        )
    }

    /// Whether any character can be absorbed.
    pub open spec fn any_in_reach(self) -> bool {
        exists|j: int| self.in_reach(j)
    }

    /// The registry after the possessed character has absorbed, in slot
    /// order, every character in reach among the first `upto` slots.
    pub open spec fn combined(self, upto: int) -> RegistryView
        decreases upto,
    {
        if upto <= 0 {
            self
        } else if self.in_reach(upto - 1) {
            self.combined(upto - 1).absorbed(upto - 1)
        } else {
            self.combined(upto - 1)
        }
    }

    /// The registry after an attempt to combine: with confirmation every
    /// character in reach is absorbed, without it nothing changes.
    pub open spec fn after_combine(self, confirm: bool) -> RegistryView {
        if confirm {
            self.combined(self.slots.len() as int)
        } else {
            self
        }
    }

    /// The slots that an attempt to combine empties, in increasing order.
    pub open spec fn gone_after_combine(self, confirm: bool) -> Seq<usize> {
        if confirm {
            self.reachable(self.slots.len() as int)
        } else {
            Seq::empty()
        }
    }

    /// The slots in reach among the first `upto`, in increasing order.
    pub open spec fn reachable(self, upto: int) -> Seq<usize>
        decreases upto,
    {
        if upto <= 0 {
            Seq::empty()
        } else if self.in_reach(upto - 1) {
            self.reachable(upto - 1).push((upto - 1) as usize)
        } else {
            self.reachable(upto - 1)
        }
    }
}

/// The notification after an attempt to combine. With nobody in reach a
/// hint that is showing goes; with somebody in reach the hint is shown
/// until the merge is confirmed, which clears the text. The removal time
/// stays as it is.
pub open spec fn combine_notice(before: NotificationView, any_in_reach: bool, confirm: bool) -> NotificationView {
    NotificationView {
        remove_when: before.remove_when,
        text: if !any_in_reach {
            if before.text == Some(combine_hint()) {
                None
            } else {
                before.text
            }
        } else if confirm {
            None
        } else {
            Some(combine_hint())
        },
    }
}

/// The notification after the exit crossing of a tick was evaluated at the
/// time `now`: a complete character has won for good, an incomplete one is
/// reminded for [`REMINDER_DURATION`]; without a crossing nothing changes.
pub open spec fn exit_notice(before: NotificationView, crossed: bool, complete: bool, now: u64) -> NotificationView {
    if !crossed {
        before
    } else if complete {
        NotificationView { remove_when: None, text: Some(won_text()) }
    } else {
        NotificationView { remove_when: Some((now + REMINDER_DURATION) as u64), text: Some(reminder_text()) }
    }
}

/// What merging the characters in reach among the first `upto` slots
/// changes and what it leaves alone.
pub proof fn lemma_combined(v: RegistryView, upto: int)
    requires
        v.valid(),
    ensures
        v.combined(upto).valid(),
        v.combined(upto).succeeds(v),
        v.combined(upto).controlled == v.controlled,
        v.combined(upto).slots[v.controlled]->0.position == v.slots[v.controlled]->0.position,
        v.combined(upto).slots[v.controlled]->0.look == v.slots[v.controlled]->0.look,
        v.combined(upto).slots[v.controlled]->0.color == v.slots[v.controlled]->0.color,
        forall|j: int|
            0 <= j < v.slots.len() && j != v.controlled ==> #[trigger] v.combined(upto).slots[j] == if j < upto
                && v.in_reach(j) {
                None
            } else {
                v.slots[j]
            },
        forall|j: int, n: u8|
            j < upto && v.in_reach(j) && #[trigger] v.holds(j, n) ==> v.combined(upto).holds(v.controlled, n),
    decreases upto,
{
    if upto > 0 {
        lemma_combined(v, upto - 1);
        let before = v.combined(upto - 1);
        if v.in_reach(upto - 1) {
            lemma_absorbed_valid(before, upto - 1);
            let after = before.absorbed(upto - 1);
            assert(before.slots[upto - 1] == v.slots[upto - 1]);
            assert forall|j: int, n: u8| j < upto && v.in_reach(j) && #[trigger] v.holds(j, n) implies after.holds(
                v.controlled,
                n,
            ) by {
                let host = before.numbers(v.controlled);
                let guest = before.numbers(upto - 1);
                if j == upto - 1 {
                    let k = choose|k: int| 0 <= k < guest.len() && guest[k] == n;
                    assert((host + guest)[host.len() + k] == n);
                } else {
                    assert(before.holds(v.controlled, n));
                    let k = choose|k: int| 0 <= k < host.len() && host[k] == n;
                    assert((host + guest)[k] == n);
                }
            }
            assert forall|i: int| #[trigger] after.alive(i) implies v.numbers(i).is_prefix_of(after.numbers(i)) by {
                assert(before.alive(i));
                assert(v.numbers(i).is_prefix_of(before.numbers(i)));
                assert(before.numbers(i).is_prefix_of(after.numbers(i)));
                assert(v.numbers(i) =~= after.numbers(i).subrange(0, v.numbers(i).len() as int));
            }
        }
    }
}

/// Later states of later states are later states.
pub proof fn lemma_succeeds_transitive(first: RegistryView, second: RegistryView, third: RegistryView)
    requires
        second.succeeds(first),
        third.succeeds(second),
    ensures
        third.succeeds(first),
{
    assert forall|i: int| #[trigger] third.alive(i) implies first.numbers(i).is_prefix_of(third.numbers(i)) by {
        assert(second.alive(i));
        assert(first.numbers(i).is_prefix_of(second.numbers(i)));
        assert(second.numbers(i).is_prefix_of(third.numbers(i)));
        assert(first.numbers(i) =~= third.numbers(i).subrange(0, first.numbers(i).len() as int));
    }
}

/// In a valid registry exactly one character is possessed.
pub proof fn lemma_exactly_one_controlled(v: RegistryView)
    requires
        v.valid(),
    ensures
        v.controlled_count() == 1,
{
    lemma_controlled_among(v, v.slots.len() as int);
}

/// The possessed character is counted once its slot is among those counted.
proof fn lemma_controlled_among(v: RegistryView, upto: int)
    requires
        v.valid(),
        upto <= v.slots.len(),
    ensures
        v.controlled_among(upto) == if v.controlled < upto {
            1nat
        } else {
            0nat
        },
    decreases upto,
{
    if upto > 0 {
        lemma_controlled_among(v, upto - 1);
    }
}

/// Hands control to the character that stands for part `pressed`.
///
/// Where a living character other than the possessed one stands for that
/// part, all of this happens at once: the rig's look orientation is saved
/// with the character that gives up control, the orientation saved with
/// the new character becomes the rig's, the rig moves to the new
/// character, and the new character is possessed. In every other case,
/// zero for no selection included, nothing changes.
pub fn switch_character_control(registry: &mut CharacterRegistry, cam: &mut FlyCam, pressed: u8) -> (handover:
    Option<Handover>)
    requires
        old(registry).wf(),
    ensures
        final(registry).wf(),
        final(registry)@.succeeds(old(registry)@),
        final(registry)@ == old(registry)@.after_switch(old(cam).look, pressed),
        *final(cam) == old(registry)@.rig_after_switch(*old(cam), pressed),
        handover == old(registry)@.handover(pressed),
        !old(registry)@.held(pressed) ==> final(registry)@ == old(registry)@ && *final(cam) == *old(cam),
{
    let released: usize = registry.controlled();
    let found = registry.find_holder(pressed);
    match found {
        Some(target) => {
            proof {
                let chosen = registry@.holder(pressed);
                assert(registry@.holds(target as int, pressed));
                assert(registry@.holds(chosen, pressed));
            }
            if target == released {
                return None;
            }
            let position = registry.position(target);
            let look = registry.look(target);
            registry.set_look(released, cam.look);
            registry.set_controlled(target);
            match (position, look) {
                (Some(position), Some(look)) => {
                    cam.position = position;
                    cam.look = look;
                },
                _ => {},
            }
            proof {
                crate::character::lemma_same_identities(old(registry)@, registry@);
            }
            Some(Handover { released, possessed: target })
        },
        None => None,
    }
}

/// Forces the possessed character to the position of the rig.
pub fn follow_camera(registry: &mut CharacterRegistry, cam: &FlyCam)
    requires
        old(registry).wf(),
    ensures
        final(registry).wf(),
        final(registry)@.succeeds(old(registry)@),
        final(registry)@ == old(registry)@.with_position(old(registry)@.controlled, cam.position),
{
    let slot: usize = registry.controlled();
    registry.set_position(slot, cam.position);
    proof {
        crate::character::lemma_same_identities(old(registry)@, registry@);
    }
}

/// Whether `text` is the hint to combine parts.
fn is_combine_hint(text: &Option<String>) -> (hint: bool)
    ensures
        hint <==> (text matches Some(t) && t@ == combine_hint()),
{
    match text {
        Some(t) => {
            let hint: String = "Press space to combine parts".to_owned();
            *t == hint
        },
        None => false,
    }
}

/// Merges into the possessed character every character in reach, if
/// `confirm` was just pressed, and keeps the hint to do so up to date.
///
/// With nobody in reach, a hint that is showing is removed. With somebody
/// in reach and no confirmation, the hint is shown and nothing else
/// changes. With confirmation, every character in reach is absorbed in
/// slot order and the text is cleared. Returns the absorbed slots.
pub fn attempt_combine(registry: &mut CharacterRegistry, notification: &mut Notification, confirm: bool) -> (gone:
    Vec<usize>)
    requires
        old(registry).wf(),
    ensures
        final(registry).wf(),
        final(registry)@.succeeds(old(registry)@),
        final(registry)@ == old(registry)@.after_combine(confirm),
        gone@ == old(registry)@.gone_after_combine(confirm),
        final(notification)@ == combine_notice(old(notification)@, old(registry)@.any_in_reach(), confirm),
        !(confirm && old(registry)@.any_in_reach()) ==> final(registry)@ == old(registry)@ && gone@.len() == 0,
        confirm ==> forall|j: int| #[trigger] old(registry)@.in_reach(j) ==> !final(registry)@.alive(j),
        confirm ==> forall|j: int, n: u8|
            old(registry)@.in_reach(j) && #[trigger] old(registry)@.holds(j, n) ==> final(registry)@.holds(
                final(registry)@.controlled,
                n,
            ),
{
    if is_combine_hint(&notification.text) {
        notification.text = None;
    }
    let count: usize = registry.len();
    let host: usize = registry.controlled();
    let mut gone: Vec<usize> = Vec::new();
    let center = match registry.position(host) {
        Some(position) => position,
        None => {
            return gone;
        },
    };
    let mut i: usize = 0;
    while i < count
        invariant
            old(registry).wf(),
            registry.wf(),
            count == old(registry)@.slots.len(),
            host == old(registry)@.controlled,
            center == old(registry)@.slots[host as int]->0.position,
            i <= count,
            registry@ == old(registry)@.combined(i as int),
            gone@ == old(registry)@.reachable(i as int),
            !confirm ==> forall|j: int| 0 <= j < i ==> !old(registry)@.in_reach(j),
            notification@.remove_when == old(notification)@.remove_when,
            notification@.text == if old(notification)@.text == Some(combine_hint()) {
                None
            } else {
                old(notification)@.text
            },
        decreases count - i,
    {
        proof {
            lemma_combined(old(registry)@, i as int);
        }
        if i != host {
            match registry.position(i) {
                Some(position) => {
                    if within_reach(position, center, 2 * PLAYER_RADIUS) {
                        assert(old(registry)@.in_reach(i as int));
                        if !confirm {
                            notification.text = Some("Press space to combine parts".to_owned());
                            proof {
                                lemma_nothing_reached(old(registry)@, i as int);
                            }
                            return gone;
                        }
                        registry.absorb(i);
                        gone.push(i);
                    }
                },
                None => {},
            }
        }
        i = i + 1;
    }
    proof {
        lemma_combined(old(registry)@, count as int);
        lemma_nothing_reached(old(registry)@, count as int);
    }
    if gone.len() > 0 {
        notification.text = None;
    }
    gone
}

/// With nobody in reach among the first `upto` slots, merging them changes
/// nothing and lists nobody; with somebody, it lists somebody.
proof fn lemma_nothing_reached(v: RegistryView, upto: int)
    ensures
        (forall|j: int| 0 <= j < upto ==> !v.in_reach(j)) ==> v.combined(upto) == v && v.reachable(upto).len() == 0,
        (exists|j: int| 0 <= j < upto && v.in_reach(j)) ==> v.reachable(upto).len() > 0,
    decreases upto,
{
    if upto > 0 {
        lemma_nothing_reached(v, upto - 1);
        if exists|j: int| 0 <= j < upto && v.in_reach(j) {
            let j = choose|j: int| 0 <= j < upto && v.in_reach(j);
            if j < upto - 1 {
                assert(0 <= j < upto - 1 && v.in_reach(j));
            }
        }
    }
}

/// Evaluates the exit crossing of this tick, if there was one.
///
/// A complete character has won, and the notification says so for good.
/// An incomplete one is reminded to combine all parts, for
/// [`REMINDER_DURATION`] from `now`, the time in microseconds since
/// startup. Without a crossing nothing changes.
pub fn leave_labyrinth(
    event: Option<LeaveLabyrinthEvent>,
    registry: &CharacterRegistry,
    notification: &mut Notification,
    now: u64,
)
    requires
        registry.wf(),
        now + REMINDER_DURATION <= u64::MAX,
    ensures
        final(notification)@ == exit_notice(old(notification)@, event is Some, registry@.complete(), now),
{
    match event {
        Some(_) => {
            if registry.is_complete() {
                notification.text = Some("You won!".to_owned());
                notification.remove_when = None;
            } else {
                notification.text = Some("You need to combine all parts before you can leave".to_owned());
                notification.remove_when = Some(now + REMINDER_DURATION);
            }
        },
        None => {},
    }
}

} // verus!
