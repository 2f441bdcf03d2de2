use labyrinth::camera::CamInputState;
use labyrinth::character::{get_character_texture, Character, CharacterColor, CharacterRegistry, PossessionState};
use labyrinth::maze::{LabyrinthLevel, MazeGrid};
use labyrinth::units::WorldPos;

fn open_maze(spawns: Vec<[i64; 2]>) -> MazeGrid {
    let mut pixels = Vec::new();
    for _ in 0..9 {
        pixels.extend_from_slice(&[0u8, 0, 0, 255]);
    }
    MazeGrid::new(&pixels, 3, &LabyrinthLevel { spawns, exit: [1, 1] }).unwrap()
}

#[test]
fn marker_colours_by_part_number() {
    assert_eq!(CharacterColor::from_number(1), CharacterColor::Green);
    assert_eq!(CharacterColor::from_number(2), CharacterColor::Blue);
    assert_eq!(CharacterColor::from_number(3), CharacterColor::Red);
    assert_eq!(CharacterColor::from_number(0), CharacterColor::Red);
    assert_eq!(CharacterColor::from_number(255), CharacterColor::Red);
}

#[test]
fn body_colours_by_part_number() {
    assert_eq!(get_character_texture(1), CharacterColor::Green);
    assert_eq!(get_character_texture(2), CharacterColor::Red);
    assert_eq!(get_character_texture(3), CharacterColor::Blue);
    assert_eq!(get_character_texture(0), CharacterColor::Blue);
}

#[test]
fn a_new_character_is_one_part() {
    let character = Character::new(2);
    assert_eq!(character.numbers(), &vec![2u8]);
    assert_eq!(character.color(), CharacterColor::Blue);
    assert_eq!(character.color, CharacterColor::Blue);
}

#[test]
fn spawning_numbers_the_characters_from_one() {
    let grid = open_maze(vec![[1_500_000, -500_000], [0, 0], [-2_000_000, 1_000_000]]);
    let registry = CharacterRegistry::spawn(&grid);
    assert_eq!(registry.len(), 3);
    assert_eq!(registry.controlled(), 0);
    for i in 0..3 {
        assert!(registry.is_alive(i));
        assert_eq!(registry.parts(i), vec![i as u8 + 1]);
        assert_eq!(registry.part_count(i), 1);
        assert_eq!(registry.part(i, 0), i as u8 + 1);
        assert_eq!(registry.look(i), Some(CamInputState { pitch: 0, yaw: 0 }));
    }
    assert_eq!(registry.color(0), Some(CharacterColor::Green));
    assert_eq!(registry.color(1), Some(CharacterColor::Blue));
    assert_eq!(registry.color(2), Some(CharacterColor::Red));
    // A spawn coordinate in cells times the cell size of 0.7 world units.
    assert_eq!(registry.position(0), Some(WorldPos { x: 1_050_000, y: -175_000, z: -350_000 }));
    assert_eq!(registry.position(1), Some(WorldPos { x: 0, y: -175_000, z: 0 }));
    assert_eq!(registry.position(2), Some(WorldPos { x: -1_400_000, y: -175_000, z: 700_000 }));
}

#[test]
fn spawn_coordinates_round_down() {
    let grid = open_maze(vec![[1, -1], [9, -9], [i64::MAX, i64::MIN]]);
    let registry = CharacterRegistry::spawn(&grid);
    assert_eq!(registry.position(0), Some(WorldPos { x: 0, y: -175_000, z: -1 }));
    assert_eq!(registry.position(1), Some(WorldPos { x: 6, y: -175_000, z: -7 }));
    let far = registry.position(2).unwrap();
    assert_eq!(far.x as i128, (i64::MAX as i128 * 7).div_euclid(10));
    assert_eq!(far.z as i128, (i64::MIN as i128 * 7).div_euclid(10));
}

#[test]
fn exactly_one_character_is_possessed_after_spawning() {
    let grid = open_maze(vec![[0, 0], [1, 1], [2, 2], [3, 3]]);
    let registry = CharacterRegistry::spawn(&grid);
    let states: Vec<Option<PossessionState>> = (0..5).map(|i| registry.possession(i)).collect();
    assert_eq!(
        states,
        vec![
            Some(PossessionState::Controlled),
            Some(PossessionState::Uncontrolled),
            Some(PossessionState::Uncontrolled),
            Some(PossessionState::Uncontrolled),
            None,
        ]
    );
}

#[test]
fn slots_beyond_the_registry_are_empty() {
    let grid = open_maze(vec![[0, 0]]);
    let registry = CharacterRegistry::spawn(&grid);
    assert!(!registry.is_alive(1));
    assert_eq!(registry.position(1), None);
    assert_eq!(registry.look(7), None);
    assert_eq!(registry.color(usize::MAX), None);
    assert_eq!(registry.part_count(1), 0);
    assert_eq!(registry.parts(1), Vec::<u8>::new());
    assert!(!registry.holds(1, 1));
}

#[test]
fn finding_the_holder_of_a_part() {
    let grid = open_maze(vec![[0, 0], [1, 1], [2, 2]]);
    let registry = CharacterRegistry::spawn(&grid);
    assert_eq!(registry.find_holder(1), Some(0));
    assert_eq!(registry.find_holder(3), Some(2));
    assert_eq!(registry.find_holder(0), None);
    assert_eq!(registry.find_holder(4), None);
    assert!(registry.holds(1, 2));
    assert!(!registry.holds(1, 1));
}

#[test]
fn a_single_character_is_complete_at_once() {
    let alone = CharacterRegistry::spawn(&open_maze(vec![[0, 0]]));
    assert!(alone.is_complete());
    let pair = CharacterRegistry::spawn(&open_maze(vec![[0, 0], [0, 0]]));
    assert!(!pair.is_complete());
}
