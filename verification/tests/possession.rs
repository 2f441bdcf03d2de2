use labyrinth::camera::{CamInputState, FlyCam, LeaveLabyrinthEvent};
use labyrinth::character::{CharacterRegistry, PossessionState};
use labyrinth::maze::{LabyrinthLevel, MazeGrid};
use labyrinth::notification::Notification;
use labyrinth::possession::{
    attempt_combine, follow_camera, leave_labyrinth, pressed_slot, switch_character_control, Handover,
};
use labyrinth::units::WorldPos;

const HINT: &str = "Press space to combine parts";

/// Spawn coordinates are in millionths of a cell of 0.7 world units, so a
/// multiple of ten gives a world coordinate of seven tenths of it.
fn registry_at(spawns: Vec<[i64; 2]>) -> CharacterRegistry {
    let mut pixels = Vec::new();
    for _ in 0..9 {
        pixels.extend_from_slice(&[0u8, 0, 0, 255]);
    }
    let grid = MazeGrid::new(&pixels, 3, &LabyrinthLevel { spawns, exit: [1, 1] }).unwrap();
    CharacterRegistry::spawn(&grid)
}

/// Three characters: the second 0.21 world units from the first, the third far away.
fn two_close_one_far() -> CharacterRegistry {
    registry_at(vec![[0, 0], [300_000, 0], [3_000_000, 0]])
}

fn snapshot(registry: &CharacterRegistry) -> Vec<(Option<WorldPos>, Option<CamInputState>, Vec<u8>, Option<PossessionState>)> {
    (0..registry.len())
        .map(|i| (registry.position(i), registry.look(i), registry.parts(i), registry.possession(i)))
        .collect()
}

fn nothing_shown() -> Notification {
    Notification { remove_when: None, text: None }
}

#[test]
fn selection_keys_in_order_of_precedence() {
    assert_eq!(pressed_slot(false, false, false), 0);
    assert_eq!(pressed_slot(true, false, false), 1);
    assert_eq!(pressed_slot(false, true, false), 2);
    assert_eq!(pressed_slot(false, false, true), 3);
    assert_eq!(pressed_slot(true, true, true), 1);
    assert_eq!(pressed_slot(false, true, true), 2);
}

#[test]
fn switching_hands_look_and_position_over() {
    let mut registry = two_close_one_far();
    let mut cam = FlyCam { position: WorldPos { x: 5, y: 6, z: 7 }, look: CamInputState { pitch: 100, yaw: 200 } };
    let handover = switch_character_control(&mut registry, &mut cam, 3);
    assert_eq!(handover, Some(Handover { released: 0, possessed: 2 }));
    assert_eq!(registry.controlled(), 2);
    // The rig took the new character's place and saved look.
    assert_eq!(cam, FlyCam { position: WorldPos { x: 2_100_000, y: -175_000, z: 0 }, look: CamInputState { pitch: 0, yaw: 0 } });
    // The character left behind keeps the rig's look, and stays where it was.
    assert_eq!(registry.look(0), Some(CamInputState { pitch: 100, yaw: 200 }));
    assert_eq!(registry.position(0), Some(WorldPos { x: 0, y: -175_000, z: 0 }));
    assert_eq!(registry.possession(0), Some(PossessionState::Uncontrolled));
    assert_eq!(registry.possession(2), Some(PossessionState::Controlled));

    // Switching back restores the saved look.
    cam.look = CamInputState { pitch: -1, yaw: -2 };
    cam.position = WorldPos { x: 2_000_000, y: -175_000, z: 1 };
    let back = switch_character_control(&mut registry, &mut cam, 1);
    assert_eq!(back, Some(Handover { released: 2, possessed: 0 }));
    assert_eq!(cam, FlyCam { position: WorldPos { x: 0, y: -175_000, z: 0 }, look: CamInputState { pitch: 100, yaw: 200 } });
    assert_eq!(registry.look(2), Some(CamInputState { pitch: -1, yaw: -2 }));
}

#[test]
fn switching_to_a_part_that_nobody_holds_changes_nothing() {
    let mut registry = two_close_one_far();
    let before = snapshot(&registry);
    let start = FlyCam { position: WorldPos { x: 5, y: 6, z: 7 }, look: CamInputState { pitch: 100, yaw: 200 } };
    for pressed in [0u8, 4, 9, 255] {
        let mut cam = start;
        assert_eq!(switch_character_control(&mut registry, &mut cam, pressed), None);
        assert_eq!(cam, start);
        assert_eq!(snapshot(&registry), before);
        assert_eq!(registry.controlled(), 0);
    }
}

#[test]
fn switching_to_the_possessed_character_changes_nothing() {
    let mut registry = two_close_one_far();
    let before = snapshot(&registry);
    let start = FlyCam { position: WorldPos { x: 5, y: 6, z: 7 }, look: CamInputState { pitch: 100, yaw: 200 } };
    let mut cam = start;
    assert_eq!(switch_character_control(&mut registry, &mut cam, 1), None);
    assert_eq!(cam, start);
    assert_eq!(snapshot(&registry), before);
}

#[test]
fn the_possessed_character_follows_the_rig() {
    let mut registry = two_close_one_far();
    let cam = FlyCam { position: WorldPos { x: 11, y: 22, z: 33 }, look: CamInputState { pitch: 100, yaw: 200 } };
    follow_camera(&mut registry, &cam);
    assert_eq!(registry.position(0), Some(WorldPos { x: 11, y: 22, z: 33 }));
    assert_eq!(registry.look(0), Some(CamInputState { pitch: 0, yaw: 0 }));
    assert_eq!(registry.position(1), Some(WorldPos { x: 210_000, y: -175_000, z: 0 }));
    assert_eq!(registry.controlled(), 0);
}

#[test]
fn being_close_only_raises_the_hint() {
    let mut registry = two_close_one_far();
    let before = snapshot(&registry);
    let mut notification = Notification { remove_when: Some(77), text: Some("something else".to_string()) };
    let gone = attempt_combine(&mut registry, &mut notification, false);
    assert!(gone.is_empty());
    assert_eq!(snapshot(&registry), before);
    assert_eq!(notification, Notification { remove_when: Some(77), text: Some(HINT.to_string()) });
}

#[test]
fn the_hint_goes_when_nobody_is_close() {
    let mut registry = registry_at(vec![[0, 0], [360_000, 0]]);
    let before = snapshot(&registry);
    let mut notification = Notification { remove_when: None, text: Some(HINT.to_string()) };
    assert!(attempt_combine(&mut registry, &mut notification, true).is_empty());
    assert_eq!(notification, nothing_shown());
    assert_eq!(snapshot(&registry), before);
    // Another text stays.
    let mut other = Notification { remove_when: Some(5), text: Some("You won!".to_string()) };
    assert!(attempt_combine(&mut registry, &mut other, false).is_empty());
    assert_eq!(other, Notification { remove_when: Some(5), text: Some("You won!".to_string()) });
}

#[test]
fn reach_is_strictly_less_than_two_radii() {
    // 0.25 world units apart: not in reach.
    let mut registry = registry_at(vec![[0, 0], [357_143, 0]]);
    assert_eq!(registry.position(1), Some(WorldPos { x: 250_000, y: -175_000, z: 0 }));
    assert!(attempt_combine(&mut registry, &mut nothing_shown(), true).is_empty());
    assert!(registry.is_alive(1));
    // One step closer: in reach.
    let mut registry = registry_at(vec![[0, 0], [357_142, 0]]);
    assert_eq!(registry.position(1), Some(WorldPos { x: 249_999, y: -175_000, z: 0 }));
    assert_eq!(attempt_combine(&mut registry, &mut nothing_shown(), true), vec![1]);
    // Distance counts along all axes: 0.2 and 0.2 make more than 0.25.
    let mut registry = registry_at(vec![[0, 0], [290_000, 290_000]]);
    assert!(attempt_combine(&mut registry, &mut nothing_shown(), true).is_empty());
}

#[test]
fn merging_moves_the_parts_and_destroys_the_absorbed() {
    let mut registry = two_close_one_far();
    let mut notification = nothing_shown();
    let gone = attempt_combine(&mut registry, &mut notification, true);
    assert_eq!(gone, vec![1]);
    assert!(!registry.is_alive(1));
    assert_eq!(registry.position(1), None);
    assert_eq!(registry.possession(1), None);
    assert_eq!(registry.parts(0), vec![1, 2]);
    assert_eq!(registry.parts(2), vec![3]);
    assert_eq!(registry.find_holder(2), Some(0));
    assert_eq!(registry.len(), 3);
    assert!(!registry.is_complete());
    assert_eq!(notification, nothing_shown());
}

#[test]
fn a_merge_cannot_be_undone() {
    let mut registry = two_close_one_far();
    attempt_combine(&mut registry, &mut nothing_shown(), true);
    let mut cam = FlyCam { position: WorldPos { x: 0, y: -175_000, z: 0 }, look: CamInputState::default() };
    // Selecting the absorbed part selects the character that now holds it: nothing changes.
    assert_eq!(switch_character_control(&mut registry, &mut cam, 2), None);
    follow_camera(&mut registry, &cam);
    attempt_combine(&mut registry, &mut nothing_shown(), true);
    attempt_combine(&mut registry, &mut nothing_shown(), false);
    assert_eq!(switch_character_control(&mut registry, &mut cam, 3), Some(Handover { released: 0, possessed: 2 }));
    assert!(!registry.is_alive(1));
    assert_eq!(registry.parts(0), vec![1, 2]);
    assert_eq!(registry.parts(1), Vec::<u8>::new());
}

#[test]
fn all_characters_in_reach_merge_in_slot_order() {
    let mut registry = registry_at(vec![[100_000, 0], [3_000_000, 0], [0, 100_000], [0, 0], [100_000, 100_000]]);
    let mut cam = FlyCam { position: registry.position(0).unwrap(), look: CamInputState::default() };
    assert_eq!(switch_character_control(&mut registry, &mut cam, 4), Some(Handover { released: 0, possessed: 3 }));
    let gone = attempt_combine(&mut registry, &mut nothing_shown(), true);
    assert_eq!(gone, vec![0, 2, 4]);
    assert_eq!(registry.parts(3), vec![4, 1, 3, 5]);
    assert_eq!(registry.parts(1), vec![2]);
    assert_eq!(registry.controlled(), 3);
    let possessed = (0..registry.len()).filter(|i| registry.possession(*i) == Some(PossessionState::Controlled)).count();
    assert_eq!(possessed, 1);
}

#[test]
fn the_merged_character_takes_the_hint_away_with_it() {
    let mut registry = two_close_one_far();
    let mut notification = nothing_shown();
    attempt_combine(&mut registry, &mut notification, false);
    assert_eq!(notification.text.as_deref(), Some(HINT));
    attempt_combine(&mut registry, &mut notification, true);
    assert_eq!(notification, nothing_shown());
}

#[test]
fn a_complete_character_wins() {
    let mut registry = registry_at(vec![[0, 0], [100_000, 0], [0, 100_000]]);
    attempt_combine(&mut registry, &mut nothing_shown(), true);
    assert_eq!(registry.parts(0), vec![1, 2, 3]);
    assert!(registry.is_complete());
    let mut notification = Notification { remove_when: Some(12), text: Some("old".to_string()) };
    leave_labyrinth(Some(LeaveLabyrinthEvent), &registry, &mut notification, 1_000_000);
    assert_eq!(notification, Notification { remove_when: None, text: Some("You won!".to_string()) });
}

#[test]
fn an_incomplete_character_is_reminded_for_five_seconds() {
    let registry = two_close_one_far();
    let mut notification = nothing_shown();
    leave_labyrinth(Some(LeaveLabyrinthEvent), &registry, &mut notification, 1_250_000);
    assert_eq!(
        notification,
        Notification {
            remove_when: Some(6_250_000),
            text: Some("You need to combine all parts before you can leave".to_string()),
        }
    );
}

#[test]
fn without_a_crossing_the_notification_stays() {
    let registry = two_close_one_far();
    let mut notification = Notification { remove_when: Some(3), text: Some("kept".to_string()) };
    leave_labyrinth(None, &registry, &mut notification, 9);
    assert_eq!(notification, Notification { remove_when: Some(3), text: Some("kept".to_string()) });
}
