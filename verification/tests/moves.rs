use voxel_region::coord::{can_step, get_in_direction, look_to_dir, Coordinate, Direction};
use voxel_region::events::{breaks_block, placement, Axis, DiggingState, GameMode, Half};
use voxel_region::origin::{Origin, OriginCommand};

fn at(x: i32, y: i32, z: i32) -> Coordinate {
    Coordinate::new(x, y, z)
}

fn facing(yaw: f64) -> Direction {
    look_to_dir((yaw % 360.0).floor() as i32)
}

#[test]
fn facing_at_the_bucket_boundaries() {
    assert_eq!(facing(0.0), Direction::South);
    assert_eq!(facing(44.9), Direction::South);
    assert_eq!(facing(45.0), Direction::West);
    assert_eq!(facing(134.9), Direction::West);
    assert_eq!(facing(135.0), Direction::North);
    assert_eq!(facing(224.9), Direction::North);
    assert_eq!(facing(225.0), Direction::East);
    assert_eq!(facing(314.9), Direction::East);
    assert_eq!(facing(315.0), Direction::South);
    assert_eq!(facing(359.9), Direction::South);
    assert_eq!(facing(-10.0), Direction::South);
    assert_eq!(facing(-0.5), Direction::South);
    assert_eq!(facing(-45.5), Direction::East);
    assert_eq!(facing(1.0e12 + 90.0), look_to_dir(((1.0e12_f64 % 360.0) as i32 + 90) % 360));
}

#[test]
fn facing_wraps_around() {
    assert_eq!(look_to_dir(360), Direction::South);
    assert_eq!(look_to_dir(405), Direction::West);
    assert_eq!(look_to_dir(-90), Direction::East);
    assert_eq!(look_to_dir(-180), Direction::North);
    assert_eq!(look_to_dir(-270), Direction::West);
    assert_eq!(look_to_dir(-46), Direction::East);
    assert_eq!(look_to_dir(-45), Direction::South);
    assert_eq!(look_to_dir(i32::MIN), look_to_dir(i32::MIN % 360 + 360));
    assert_eq!(look_to_dir(i32::MAX), look_to_dir(i32::MAX % 360));
}

#[test]
fn neighbours_in_each_direction() {
    let p = at(10, 20, 30);
    assert_eq!(get_in_direction(p, Direction::Down), at(10, 19, 30));
    assert_eq!(get_in_direction(p, Direction::Up), at(10, 21, 30));
    assert_eq!(get_in_direction(p, Direction::North), at(10, 20, 29));
    assert_eq!(get_in_direction(p, Direction::South), at(10, 20, 31));
    assert_eq!(get_in_direction(p, Direction::West), at(9, 20, 30));
    assert_eq!(get_in_direction(p, Direction::East), at(11, 20, 30));
}

#[test]
fn behind_is_the_horizontal_opposite() {
    assert_eq!(Direction::East.behind(), Direction::West);
    assert_eq!(Direction::West.behind(), Direction::East);
    assert_eq!(Direction::North.behind(), Direction::South);
    assert_eq!(Direction::South.behind(), Direction::North);
    assert_eq!(Direction::Up.behind(), Direction::North);
    assert_eq!(Direction::Down.behind(), Direction::North);
}

fn moved(command: OriginCommand, facing: Direction) -> Coordinate {
    let mut origin = Origin { position: at(0, 64, 0) };
    assert!(origin.can_apply(command, facing, at(7, 8, 9)));
    origin.apply(command, facing, at(7, 8, 9));
    origin.position
}

#[test]
fn origin_moves_one_unit_along_the_named_axis() {
    let f = Direction::South;
    assert_eq!(moved(OriginCommand::Up, f), at(0, 65, 0));
    assert_eq!(moved(OriginCommand::Down, f), at(0, 63, 0));
    assert_eq!(moved(OriginCommand::North, f), at(0, 64, -1));
    assert_eq!(moved(OriginCommand::South, f), at(0, 64, 1));
    assert_eq!(moved(OriginCommand::East, f), at(1, 64, 0));
    assert_eq!(moved(OriginCommand::West, f), at(-1, 64, 0));
}

#[test]
fn origin_moves_forward_and_back_by_the_facing() {
    assert_eq!(moved(OriginCommand::Forward, Direction::South), at(0, 64, 1));
    assert_eq!(moved(OriginCommand::Forward, Direction::West), at(-1, 64, 0));
    assert_eq!(moved(OriginCommand::Forward, Direction::North), at(0, 64, -1));
    assert_eq!(moved(OriginCommand::Forward, Direction::East), at(1, 64, 0));
    assert_eq!(moved(OriginCommand::Back, Direction::South), at(0, 64, -1));
    assert_eq!(moved(OriginCommand::Back, Direction::West), at(1, 64, 0));
    assert_eq!(moved(OriginCommand::Back, Direction::North), at(0, 64, 1));
    assert_eq!(moved(OriginCommand::Back, Direction::East), at(-1, 64, 0));
}

#[test]
fn origin_snaps_to_the_feet() {
    assert_eq!(moved(OriginCommand::Here, Direction::North), at(7, 8, 9));
}

#[test]
fn origin_cannot_leave_the_grid() {
    let origin = Origin { position: at(i32::MAX, i32::MIN, 0) };
    let feet = at(0, 0, 0);
    assert!(!origin.can_apply(OriginCommand::East, Direction::North, feet));
    assert!(!origin.can_apply(OriginCommand::Down, Direction::North, feet));
    assert!(!origin.can_apply(OriginCommand::Forward, Direction::East, feet));
    assert!(!origin.can_apply(OriginCommand::Back, Direction::West, feet));
    assert!(origin.can_apply(OriginCommand::West, Direction::North, feet));
    assert!(origin.can_apply(OriginCommand::Up, Direction::North, feet));
    assert!(origin.can_apply(OriginCommand::Here, Direction::North, feet));
}

#[test]
fn digs_break_blocks_by_game_mode() {
    assert!(breaks_block(GameMode::Creative, DiggingState::Start));
    assert!(!breaks_block(GameMode::Creative, DiggingState::Stop));
    assert!(!breaks_block(GameMode::Creative, DiggingState::Abort));
    assert!(breaks_block(GameMode::Survival, DiggingState::Stop));
    assert!(!breaks_block(GameMode::Survival, DiggingState::Start));
    assert!(!breaks_block(GameMode::Survival, DiggingState::Abort));
    assert!(!breaks_block(GameMode::Adventure, DiggingState::Start));
    assert!(!breaks_block(GameMode::Adventure, DiggingState::Stop));
    assert!(!breaks_block(GameMode::Spectator, DiggingState::Start));
    assert!(!breaks_block(GameMode::Spectator, DiggingState::Stop));
}

#[test]
fn placed_blocks_are_turned_by_face_and_look() {
    let clicked = at(1, 2, 3);
    let p = placement(clicked, Direction::Up, Direction::South, false);
    assert_eq!(p.position, at(1, 3, 3));
    assert_eq!(p.axis, Axis::Y);
    assert_eq!(p.facing, Direction::South);
    assert_eq!(p.half, Half::Bottom);
    let p = placement(clicked, Direction::Down, Direction::West, true);
    assert_eq!(p.position, at(1, 1, 3));
    assert_eq!(p.axis, Axis::Y);
    assert_eq!(p.facing, Direction::West);
    assert_eq!(p.half, Half::Top);
    let p = placement(clicked, Direction::North, Direction::East, true);
    assert_eq!(p.position, at(1, 2, 2));
    assert_eq!(p.axis, Axis::Z);
    assert_eq!(p.facing, Direction::East);
    assert_eq!(p.half, Half::Bottom);
    let p = placement(clicked, Direction::East, Direction::North, false);
    assert_eq!(p.position, at(2, 2, 3));
    assert_eq!(p.axis, Axis::X);
    assert_eq!(p.facing, Direction::North);
    assert_eq!(p.half, Half::Top);
    let p = placement(clicked, Direction::West, Direction::Up, false);
    assert_eq!(p.position, at(0, 2, 3));
    assert_eq!(p.axis, Axis::X);
    assert_eq!(p.facing, Direction::North);
    let p = placement(clicked, Direction::South, Direction::Down, true);
    assert_eq!(p.position, at(1, 2, 4));
    assert_eq!(p.axis, Axis::Z);
    assert_eq!(p.facing, Direction::North);
}

#[test]
fn the_rim_of_the_grid_has_no_neighbour_outside() {
    let corner = at(i32::MIN, i32::MAX, i32::MIN);
    assert!(!can_step(corner, Direction::West));
    assert!(!can_step(corner, Direction::Up));
    assert!(!can_step(corner, Direction::North));
    assert!(can_step(corner, Direction::East));
    assert!(can_step(corner, Direction::Down));
    assert!(can_step(corner, Direction::South));
    assert_eq!(get_in_direction(corner, Direction::East), at(i32::MIN + 1, i32::MAX, i32::MIN));
}
