use labyrinth::character::{CharacterColor, CharacterRegistry};
use labyrinth::camera::{CamInputState, FlyCam};
use labyrinth::marker::{draw_markers, Marker, Painted, RayHit};
use labyrinth::maze::{LabyrinthLevel, MazeGrid};
use labyrinth::possession::switch_character_control;
use labyrinth::units::WorldPos;

/// Two characters, at the world origin and two world units along x, at player height.
fn pair() -> CharacterRegistry {
    let pixels = vec![0u8, 0, 0, 255];
    let level = LabyrinthLevel { spawns: vec![[0, 0], [20_000_000, 0]], exit: [0, 0] };
    CharacterRegistry::spawn(&MazeGrid::new(&pixels, 1, &level).unwrap())
}

fn hit_at(x: i64, y: i64, z: i64) -> RayHit {
    RayHit { position: WorldPos { x, y, z }, normal: [0, 1_000_000, 0] }
}

#[test]
fn without_a_surface_nothing_is_painted() {
    assert_eq!(draw_markers(None, &pair(), true), Painted { preview: None, decal: None });
}

#[test]
fn a_surface_in_range_shows_the_mask() {
    let hit = hit_at(600_000, -175_000, 0);
    let marker = Marker { position: hit.position, normal: hit.normal, color: CharacterColor::Green };
    assert_eq!(draw_markers(Some(hit), &pair(), false), Painted { preview: Some(marker), decal: None });
}

#[test]
fn pressing_leaves_a_marker() {
    let hit = hit_at(0, -175_000, -999_999);
    let marker = Marker { position: hit.position, normal: hit.normal, color: CharacterColor::Green };
    assert_eq!(draw_markers(Some(hit), &pair(), true), Painted { preview: Some(marker), decal: Some(marker) });
}

#[test]
fn a_surface_one_unit_away_is_out_of_range() {
    let nothing = Painted { preview: None, decal: None };
    assert_eq!(draw_markers(Some(hit_at(1_000_000, -175_000, 0)), &pair(), true), nothing);
    assert_eq!(draw_markers(Some(hit_at(0, 825_000, 0)), &pair(), true), nothing);
    assert_eq!(draw_markers(Some(hit_at(i64::MAX, i64::MIN, i64::MAX)), &pair(), true), nothing);
    // Height counts: 0.8 along x and 0.7 up make more than one unit.
    assert_eq!(draw_markers(Some(hit_at(800_000, 525_000, 0)), &pair(), false), nothing);
}

#[test]
fn markers_take_the_colour_of_the_possessed_character() {
    let mut registry = pair();
    let mut cam = FlyCam { position: registry.position(0).unwrap(), look: CamInputState::default() };
    switch_character_control(&mut registry, &mut cam, 2).unwrap();
    let hit = hit_at(14_500_000, -175_000, 0);
    let marker = Marker { position: hit.position, normal: hit.normal, color: CharacterColor::Blue };
    assert_eq!(draw_markers(Some(hit), &registry, true), Painted { preview: Some(marker), decal: Some(marker) });
    // The surface near the other character is now out of range.
    assert_eq!(draw_markers(Some(hit_at(0, -175_000, 0)), &registry, true), Painted { preview: None, decal: None });
}
