use voxel_region::coord::Coordinate;
use voxel_region::section::{Face, Section};
use voxel_region::world::{World, EMPTY};

fn at(x: i32, y: i32, z: i32) -> Coordinate {
    Coordinate::new(x, y, z)
}

fn unit_box() -> Section {
    Section::default()
}

#[test]
fn default_section_is_unit_box_at_zero() {
    let s = Section::default();
    assert_eq!(s.position, at(0, 0, 0));
    assert_eq!(s.size, at(1, 1, 1));
}

#[test]
fn grow_extends_past_far_corner() {
    let mut s = unit_box();
    s.grow(at(2, 0, 0));
    assert_eq!(s.position, at(0, 0, 0));
    assert_eq!(s.size, at(3, 1, 1));
}

#[test]
fn grow_extends_past_both_corners() {
    let mut s = unit_box();
    s.grow(at(2, 0, 0));
    s.grow(at(-1, 0, 5));
    assert_eq!(s.position, at(-1, 0, 0));
    assert_eq!(s.size, at(4, 1, 6));
}

#[test]
fn grow_with_inner_point_changes_nothing() {
    let mut s = Section { position: at(-2, 3, 4), size: at(5, 6, 7) };
    let before = s;
    s.grow(at(0, 8, 10));
    assert_eq!(s, before);
    s.grow(at(-2, 3, 4));
    assert_eq!(s, before);
}

#[test]
fn grow_never_shrinks_and_keeps_every_point() {
    let points = [at(4, -3, 2), at(-7, 1, 0), at(0, 0, 9), at(3, 3, 3), at(-7, -3, 9)];
    let mut s = unit_box();
    for (n, p) in points.iter().enumerate() {
        let before = s;
        assert!(s.can_grow(*p));
        s.grow(*p);
        assert!(s.size.x >= before.size.x);
        assert!(s.size.y >= before.size.y);
        assert!(s.size.z >= before.size.z);
        for q in points[..=n].iter() {
            assert!(s.position.x <= q.x && q.x < s.position.x + s.size.x);
            assert!(s.position.y <= q.y && q.y < s.position.y + s.size.y);
            assert!(s.position.z <= q.z && q.z < s.position.z + s.size.z);
        }
    }
    assert_eq!(s.position, at(-7, -3, 0));
    assert_eq!(s.size, at(12, 7, 10));
}

#[test]
fn can_grow_refuses_an_extent_that_is_too_large() {
    let s = Section { position: at(i32::MAX, 0, 0), size: at(1, 1, 1) };
    assert!(!s.can_grow(at(-1, 0, 0)));
    assert!(!s.can_grow(at(0, 0, 0)));
    assert!(s.can_grow(at(1, 0, 0)));
    assert!(s.can_grow(at(i32::MAX, i32::MAX - 1, i32::MIN + 2)));
    assert!(!s.can_grow(at(i32::MAX, i32::MAX, 0)));
    assert!(!s.can_grow(at(i32::MAX, 0, i32::MIN + 1)));
}

#[test]
fn grow_up_to_the_largest_extent() {
    let mut s = Section { position: at(i32::MAX, 0, 0), size: at(1, 1, 1) };
    s.grow(at(1, 0, 0));
    assert_eq!(s.position, at(1, 0, 0));
    assert_eq!(s.size, at(i32::MAX, 1, 1));
}

#[test]
fn has_block_finds_a_block_in_the_region_only() {
    let mut w = World::new();
    w.set_block(at(5, 5, 5), 7);
    assert!(w.has_block(at(5, 5, 5), at(1, 1, 1)));
    assert!(w.has_block(at(3, 3, 3), at(3, 3, 3)));
    assert!(!w.has_block(at(3, 3, 3), at(2, 3, 3)));
    assert!(!w.has_block(at(6, 5, 5), at(4, 4, 4)));
    assert!(!w.has_block(at(5, 5, 5), at(0, 1, 1)));
    assert!(!w.has_block(at(5, 5, 5), at(1, -1, 1)));
}

#[test]
fn world_reads_back_what_was_set() {
    let mut w = World::new();
    assert_eq!(w.block(at(1, 2, 3)), EMPTY);
    w.set_block(at(1, 2, 3), 9);
    w.set_block(at(3, 2, 1), 4);
    w.set_block(at(i32::MIN, i32::MAX, -1), 2);
    assert_eq!(w.block(at(1, 2, 3)), 9);
    assert_eq!(w.block(at(3, 2, 1)), 4);
    assert_eq!(w.block(at(i32::MIN, i32::MAX, -1)), 2);
    assert_eq!(w.block(at(i32::MAX, i32::MIN, -1)), EMPTY);
    w.set_block(at(1, 2, 3), EMPTY);
    assert_eq!(w.block(at(1, 2, 3)), EMPTY);
    assert_eq!(w.block(at(3, 2, 1)), 4);
}

#[test]
fn clear_empties_the_region_and_nothing_else() {
    let mut w = World::new();
    for x in 0..4 {
        for y in 0..4 {
            for z in 0..4 {
                w.set_block(at(x, y, z), 1);
            }
        }
    }
    w.clear(at(1, 1, 1), at(2, 2, 2));
    for x in 0..4 {
        for y in 0..4 {
            for z in 0..4 {
                let inside = (1..3).contains(&x) && (1..3).contains(&y) && (1..3).contains(&z);
                assert_eq!(w.block(at(x, y, z)), if inside { EMPTY } else { 1 });
            }
        }
    }
}

#[test]
fn shrink_converges_on_a_single_block() {
    let mut w = World::new();
    w.set_block(at(1, 0, 1), 1);
    let mut s = Section { position: at(0, 0, 0), size: at(3, 1, 3) };
    s.shrink(&w);
    assert_eq!(s.position, at(1, 0, 1));
    assert_eq!(s.size, at(1, 1, 1));
}

#[test]
fn shrink_keeps_a_box_with_a_block_on_every_face() {
    let mut w = World::new();
    w.set_block(at(0, 0, 0), 1);
    w.set_block(at(2, 2, 2), 1);
    let mut s = Section { position: at(0, 0, 0), size: at(3, 3, 3) };
    for face in [Face::LowX, Face::HighX, Face::LowY, Face::HighY, Face::LowZ, Face::HighZ] {
        assert!(!s.is_face_empty(&w, face));
    }
    assert_eq!(s.find_empty_face(&w), None);
    let before = s;
    s.shrink(&w);
    assert_eq!(s, before);
}

#[test]
fn shrink_of_an_empty_box_stops_at_the_first_axis() {
    let w = World::new();
    let mut s = Section { position: at(0, 0, 0), size: at(3, 3, 3) };
    assert_eq!(s.find_empty_face(&w), Some(Face::LowX));
    s.shrink(&w);
    assert_eq!(s.position, at(2, 0, 0));
    assert_eq!(s.size, at(1, 3, 3));
}

#[test]
fn shrink_never_grows_and_keeps_every_block() {
    let mut w = World::new();
    w.set_block(at(2, 3, 4), 5);
    w.set_block(at(4, 3, 6), 6);
    let mut s = Section { position: at(0, 0, 0), size: at(8, 8, 8) };
    let before = s;
    s.shrink(&w);
    assert!(s.size.x <= before.size.x && s.size.x >= 1);
    assert!(s.size.y <= before.size.y && s.size.y >= 1);
    assert!(s.size.z <= before.size.z && s.size.z >= 1);
    assert_eq!(s.position, at(2, 3, 4));
    assert_eq!(s.size, at(3, 1, 3));
    assert!(w.has_block(s.position, s.size));
}

#[test]
fn shrink_cuts_the_high_faces_too() {
    let mut w = World::new();
    w.set_block(at(0, 0, 0), 1);
    let mut s = Section { position: at(0, 0, 0), size: at(2, 3, 4) };
    assert_eq!(s.find_empty_face(&w), Some(Face::HighX));
    s.shrink(&w);
    assert_eq!(s.position, at(0, 0, 0));
    assert_eq!(s.size, at(1, 1, 1));
}
