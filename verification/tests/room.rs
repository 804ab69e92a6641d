use mount_arelle::config::{DungeonSize, RoomSize, ATTEMPTS};
use mount_arelle::room::{meets_any, Room};

#[test]
fn room_bounds() {
    let room = Room::new(3, 4, 5, 6);
    assert_eq!(room.x1(), 3);
    assert_eq!(room.x2(), 8);
    assert_eq!(room.y1(), 4);
    assert_eq!(room.y2(), 10);
}

#[test]
fn room_centre_tile_and_centre() {
    let room = Room::new(3, 4, 5, 6);
    assert_eq!(room.center_x(), 5);
    assert_eq!(room.center_y(), 7);
    assert_eq!(room.center(), (11, 14));
    let far = Room::new(u32::MAX - 1, u32::MAX - 2, 3, 4);
    assert_eq!(far.center_x(), u32::MAX);
    assert_eq!(far.center_y(), u32::MAX);
    let large = Room::new(u32::MAX, u32::MAX, u32::MAX, u32::MAX);
    assert_eq!(large.center(), (3 * (u32::MAX as u64), 3 * (u32::MAX as u64)));
}

#[test]
fn rooms_that_overlap_intersect() {
    let a = Room::new(0, 0, 5, 5);
    let b = Room::new(3, 3, 5, 5);
    assert!(a.intersects(&b));
    assert!(b.intersects(&a));
    assert!(a.intersects(&a));
}

#[test]
fn rooms_that_share_an_edge_intersect() {
    let a = Room::new(0, 0, 5, 5);
    let right = Room::new(5, 0, 5, 5);
    let below = Room::new(0, 5, 5, 5);
    let corner = Room::new(5, 5, 2, 2);
    assert!(a.intersects(&right));
    assert!(a.intersects(&below));
    assert!(a.intersects(&corner));
}

#[test]
fn rooms_with_a_gap_do_not_intersect() {
    let a = Room::new(0, 0, 5, 5);
    let right = Room::new(6, 0, 5, 5);
    let below = Room::new(0, 6, 5, 5);
    assert!(!a.intersects(&right));
    assert!(!right.intersects(&a));
    assert!(!a.intersects(&below));
    assert!(!below.intersects(&a));
}

#[test]
fn intersects_near_the_largest_coordinates() {
    let a = Room::new(u32::MAX, 0, u32::MAX, 1);
    let b = Room::new(0, 0, 1, 1);
    assert!(!a.intersects(&b));
    assert!(a.intersects(&a));
}

#[test]
fn meets_any_looks_at_every_room() {
    let rooms = vec![Room::new(0, 0, 5, 5), Room::new(20, 20, 5, 5)];
    assert!(meets_any(&rooms, &Room::new(24, 24, 3, 3)));
    assert!(meets_any(&rooms, &Room::new(5, 5, 3, 3)));
    assert!(!meets_any(&rooms, &Room::new(10, 10, 5, 5)));
    assert!(!meets_any(&Vec::new(), &Room::new(0, 0, 5, 5)));
}

#[test]
fn dungeon_size_tables() {
    assert_eq!(DungeonSize::from_position(0), DungeonSize::Small);
    assert_eq!(DungeonSize::from_position(1), DungeonSize::Med);
    assert_eq!(DungeonSize::from_position(2), DungeonSize::Large);
    assert_eq!(DungeonSize::Small.bounds(), (50, 81));
    assert_eq!(DungeonSize::Med.bounds(), (80, 121));
    assert_eq!(DungeonSize::Large.bounds(), (120, 151));
    assert_eq!(DungeonSize::Small.room_bounds(), (7, 11));
    assert_eq!(DungeonSize::Med.room_bounds(), (10, 21));
    assert_eq!(DungeonSize::Large.room_bounds(), (20, 40));
    assert_eq!(DungeonSize::size_weights(), vec![300, 250, 100]);
    assert_eq!(DungeonSize::Small.room_size_weights(), vec![100, 200, 0]);
    assert_eq!(DungeonSize::Med.room_size_weights(), vec![100, 250, 50]);
    assert_eq!(DungeonSize::Large.room_size_weights(), vec![100, 250, 100]);
    assert_eq!(ATTEMPTS, (20, 41));
}

#[test]
fn room_size_tables() {
    assert_eq!(RoomSize::from_position(0), RoomSize::Small);
    assert_eq!(RoomSize::from_position(1), RoomSize::Med);
    assert_eq!(RoomSize::from_position(2), RoomSize::Large);
    assert_eq!(RoomSize::Small.bounds(), (5, 11));
    assert_eq!(RoomSize::Med.bounds(), (10, 15));
    assert_eq!(RoomSize::Large.bounds(), (15, 21));
}
