use labyrinth::collision::Resolution;
use labyrinth::maze::{Cell, LabyrinthLevel, MazeGrid};
use labyrinth::units::{Movement, WorldPos};

fn bitmap(rows: &[&str]) -> Vec<u8> {
    let mut pixels = Vec::new();
    for row in rows {
        for ch in row.chars() {
            let value = if ch == '#' { 255u8 } else { 0u8 };
            pixels.extend_from_slice(&[value, value, value, 255]);
        }
    }
    pixels
}

/// Four by four cells; open are (1, 1), (2, 1) and (1, 2). Cell centres lie
/// at index * 700000 - 1400000.
fn corner_maze(exit: [usize; 2]) -> MazeGrid {
    let pixels = bitmap(&["####", "#..#", "#.##", "####"]);
    MazeGrid::new(&pixels, 4, &LabyrinthLevel { spawns: vec![[0, 0]], exit }).unwrap()
}

fn centre_of_1_1() -> WorldPos {
    WorldPos { x: -700_000, y: -175_000, z: -700_000 }
}

fn moved(x: i64, z: i64, crossed_exit: bool) -> Resolution {
    Resolution { movement: Movement { x, z }, crossed_exit }
}

#[test]
fn movement_inside_the_cell_is_left_alone() {
    let grid = corner_maze([1, 2]);
    let r = grid.resolve(centre_of_1_1(), Movement { x: -225_000, z: -225_000 });
    assert_eq!(r, moved(-225_000, -225_000, false));
    let r = grid.resolve(centre_of_1_1(), Movement { x: 0, z: 0 });
    assert_eq!(r, moved(0, 0, false));
}

#[test]
fn a_closed_neighbour_stops_the_axis_that_reaches_it() {
    let grid = corner_maze([1, 2]);
    // The disc's edge passes the lower boundary by one step.
    assert_eq!(grid.resolve(centre_of_1_1(), Movement { x: -225_001, z: 0 }), moved(0, 0, false));
    assert_eq!(grid.resolve(centre_of_1_1(), Movement { x: 0, z: -225_001 }), moved(0, 0, false));
    assert_eq!(grid.resolve(centre_of_1_1(), Movement { x: -300_000, z: 100_000 }), moved(0, 100_000, false));
}

#[test]
fn an_open_neighbour_lets_the_actor_pass() {
    let grid = corner_maze([1, 2]);
    assert_eq!(grid.resolve(centre_of_1_1(), Movement { x: 300_000, z: 0 }), moved(300_000, 0, false));
    assert_eq!(grid.resolve(centre_of_1_1(), Movement { x: 225_000, z: 0 }), moved(225_000, 0, false));
}

#[test]
fn reaching_into_the_exit_is_reported() {
    let grid = corner_maze([1, 2]);
    assert_eq!(grid.resolve(centre_of_1_1(), Movement { x: 0, z: 225_001 }), moved(0, 225_001, true));
    assert_eq!(grid.resolve(centre_of_1_1(), Movement { x: 0, z: 225_000 }), moved(0, 225_000, false));
    let grid = corner_maze([2, 1]);
    assert_eq!(grid.resolve(centre_of_1_1(), Movement { x: 300_000, z: 0 }), moved(300_000, 0, true));
    assert_eq!(grid.resolve(centre_of_1_1(), Movement { x: 0, z: 300_000 }), moved(0, 300_000, false));
}

#[test]
fn a_closed_corner_stops_the_larger_part() {
    let grid = corner_maze([3, 3]);
    // Both neighbours are open, the cell across the corner, (2, 2), is closed.
    assert_eq!(grid.resolve(centre_of_1_1(), Movement { x: 300_000, z: 400_000 }), moved(300_000, 0, false));
    assert_eq!(grid.resolve(centre_of_1_1(), Movement { x: 400_000, z: 300_000 }), moved(0, 300_000, false));
}

#[test]
fn of_equal_parts_a_closed_corner_stops_the_x_part() {
    let grid = corner_maze([3, 3]);
    assert_eq!(grid.resolve(centre_of_1_1(), Movement { x: 300_000, z: 300_000 }), moved(0, 300_000, false));
}

#[test]
fn the_actor_slides_along_a_wall() {
    let grid = corner_maze([3, 3]);
    assert_eq!(grid.resolve(centre_of_1_1(), Movement { x: -300_000, z: 300_000 }), moved(0, 300_000, false));
    assert_eq!(grid.resolve(centre_of_1_1(), Movement { x: 300_000, z: -300_000 }), moved(300_000, 0, false));
}

#[test]
fn crossing_is_reported_even_where_the_corner_stops_the_move() {
    // From (1, 1) towards the closed corner (2, 2) with the exit beside: the
    // X part is stopped by the corner rule, the exit beside is still reported.
    let grid = corner_maze([2, 1]);
    assert_eq!(grid.resolve(centre_of_1_1(), Movement { x: 300_000, z: 300_000 }), moved(0, 300_000, true));
}

#[test]
fn corrected_moves_end_in_open_cells() {
    let grid = corner_maze([1, 2]);
    let starts = [
        WorldPos { x: -700_000, y: 0, z: -700_000 },
        WorldPos { x: -400_000, y: 0, z: -1_000_000 },
        WorldPos { x: 300_000, y: 0, z: -400_000 },
        WorldPos { x: -1_049_999, y: 0, z: 349_999 },
    ];
    let steps = [-700_000, -350_000, -100_000, 0, 1, 100_000, 350_000, 700_000];
    for start in starts {
        assert!(grid.is_open(grid.to_cell(start)));
        for dx in steps {
            for dz in steps {
                let r = grid.resolve(start, Movement { x: dx, z: dz });
                let end = WorldPos { x: start.x + r.movement.x, y: 0, z: start.z + r.movement.z };
                let from = grid.to_cell(start);
                let to = grid.to_cell(end);
                if (to.x - from.x).abs() <= 1 && (to.y - from.y).abs() <= 1 {
                    assert!(grid.is_open(to), "{start:?} by ({dx}, {dz})");
                }
            }
        }
    }
}

#[test]
fn only_the_adjacent_cell_is_looked_up() {
    // One row of three cells, the last one a wall. Row 0 is centred on z = -350000.
    let pixels = bitmap(&["..#"]);
    let grid = MazeGrid::new(&pixels, 3, &LabyrinthLevel { spawns: vec![[0, 0]], exit: [0, 0] }).unwrap();
    let start = WorldPos { x: -1_050_000, y: 0, z: -350_000 };
    assert_eq!(grid.to_cell(start), Cell { x: 0, y: 0 });
    // A move of two cells passes the open neighbour and ends in the wall behind it.
    let r = grid.resolve(start, Movement { x: 1_400_000, z: 0 });
    assert_eq!(r.movement, Movement { x: 1_400_000, z: 0 });
    let end = WorldPos { x: start.x + r.movement.x, y: 0, z: start.z };
    assert_eq!(grid.to_cell(end), Cell { x: 2, y: 0 });
    assert!(!grid.is_open(grid.to_cell(end)));
    // From the neighbour itself the wall stops the move.
    let beside = WorldPos { x: -350_000, y: 0, z: -350_000 };
    assert_eq!(grid.resolve(beside, Movement { x: 700_000, z: 0 }).movement, Movement { x: 0, z: 0 });
}

#[test]
fn an_actor_inside_a_wall_may_leave_it() {
    let grid = corner_maze([3, 3]);
    // Centre of the closed cell (0, 1), moving towards the open cell (1, 1).
    let start = WorldPos { x: -1_400_000, y: 0, z: -700_000 };
    assert!(!grid.is_open(grid.to_cell(start)));
    assert_eq!(grid.resolve(start, Movement { x: 400_000, z: 0 }), moved(400_000, 0, false));
    // Towards the closed cell (0, 0) it is stopped.
    assert_eq!(grid.resolve(start, Movement { x: 0, z: -400_000 }), moved(0, 0, false));
}

#[test]
fn extreme_displacements_do_not_overflow() {
    let grid = corner_maze([1, 2]);
    let r = grid.resolve(centre_of_1_1(), Movement { x: i64::MIN, z: i64::MAX });
    // Z reaches the exit cell below; X is stopped by the wall.
    assert_eq!(r, moved(0, i64::MAX, true));
    let r = grid.resolve(centre_of_1_1(), Movement { x: i64::MAX, z: i64::MIN });
    assert_eq!(r, moved(i64::MAX, 0, false));
}
