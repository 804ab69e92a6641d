use mount_arelle::layout::{seed_to_words, Layout, LayoutError};
use mount_arelle::room::Room;

fn seeds() -> Vec<String> {
    (0..60).map(|n| format!("seed {}", n)).collect()
}

#[test]
fn seed_words_are_the_bytes() {
    assert_eq!(seed_to_words(""), Vec::<u32>::new());
    assert_eq!(seed_to_words("abc"), vec![97, 98, 99]);
    assert_eq!(seed_to_words("é!"), vec![0xc3, 0xa9, 0x21]);
}

#[test]
fn equal_seeds_draw_equal_layouts() {
    for seed in seeds() {
        let first = Layout::draw(&seed);
        let second = Layout::draw(&seed);
        assert_eq!(first.width(), second.width());
        assert_eq!(first.height(), second.height());
        assert_eq!(first.rooms(), second.rooms());
        assert_eq!(first.turns(), second.turns());
        assert_eq!(first.spawn(), second.spawn());
    }
}

#[test]
fn the_seed_decides_the_layout() {
    let first = Layout::draw("seed 0");
    assert!(seeds().iter().any(|seed| {
        let other = Layout::draw(seed);
        other.width() != first.width() || other.rooms() != first.rooms()
    }));
}

#[test]
fn drawn_sides_lie_in_the_range_of_one_size() {
    let ranges = [(50, 81), (80, 121), (120, 151)];
    for seed in seeds() {
        let layout = Layout::draw(&seed);
        let (w, h) = (layout.width(), layout.height());
        assert!(ranges.iter().any(|&(low, high)| low <= w && w < high && low <= h && h < high));
    }
}

#[test]
fn every_size_of_dungeon_is_drawn() {
    let widths: Vec<u32> = seeds().iter().map(|seed| Layout::draw(seed).width()).collect();
    assert!(widths.iter().any(|&w| w < 80));
    assert!(widths.iter().any(|&w| w > 80 && w < 120));
    assert!(widths.iter().any(|&w| w > 120));
}

#[test]
fn drawn_rooms_are_apart_and_inside() {
    for seed in seeds() {
        let layout = Layout::draw(&seed);
        let rooms = layout.rooms();
        assert!(!rooms.is_empty() && rooms.len() <= 39);
        for (i, room) in rooms.iter().enumerate() {
            assert!(5 <= room.w && room.w <= 20 && 5 <= room.h && room.h <= 20);
            assert!(room.x2() < layout.width() && room.y2() < layout.height());
            for other in &rooms[i + 1..] {
                assert!(!room.intersects(other));
            }
        }
    }
}

#[test]
fn drawn_rooms_are_spread_over_the_grid() {
    for seed in seeds() {
        let layout = Layout::draw(&seed);
        assert!(layout.rooms().len() >= 2);
        assert!(layout.rooms().iter().any(|room| room.x != 0));
        assert!(layout.rooms().iter().any(|room| room.y != 0));
    }
}

#[test]
fn more_rooms_are_kept_than_the_least_limit() {
    assert!(seeds().iter().any(|seed| {
        let layout = Layout::draw(seed);
        layout.width() < 80 && layout.rooms().len() > 7
    }));
}

#[test]
fn there_is_a_turn_for_each_corridor() {
    let mut row_first = 0;
    let mut column_first = 0;
    for seed in seeds() {
        let layout = Layout::draw(&seed);
        assert_eq!(layout.turns().len() + 1, layout.rooms().len());
        row_first += layout.turns().iter().filter(|&&turn| turn).count();
        column_first += layout.turns().iter().filter(|&&turn| !turn).count();
    }
    assert!(row_first > 0 && column_first > 0);
}

#[test]
fn the_player_starts_in_a_room() {
    let mut elsewhere = false;
    for seed in seeds() {
        let layout = Layout::draw(&seed);
        assert!(layout.rooms().contains(&layout.spawn()));
        elsewhere = elsewhere || layout.spawn() != layout.rooms()[0];
    }
    assert!(elsewhere);
}

#[test]
fn a_layout_of_given_parts() {
    let rooms = vec![Room::new(1, 1, 3, 3), Room::new(6, 4, 3, 3)];
    let layout = Layout::new(10, 8, rooms.clone(), vec![true], 1).unwrap();
    assert_eq!(layout.width(), 10);
    assert_eq!(layout.height(), 8);
    assert_eq!(layout.rooms(), &rooms);
    assert_eq!(layout.turns(), &vec![true]);
    assert_eq!(layout.spawn(), Room::new(6, 4, 3, 3));
}

#[test]
fn a_room_may_end_at_the_edge() {
    assert!(Layout::new(4, 4, vec![Room::new(0, 0, 4, 4)], vec![], 0).is_ok());
}

#[test]
fn layout_without_columns_or_rows() {
    let rooms = vec![Room::new(0, 0, 1, 1)];
    assert_eq!(Layout::new(0, 5, rooms.clone(), vec![], 0).err(), Some(LayoutError::EmptyGrid));
    assert_eq!(Layout::new(5, 0, rooms, vec![], 0).err(), Some(LayoutError::EmptyGrid));
    assert_eq!(Layout::new(0, 0, vec![], vec![], 0).err(), Some(LayoutError::EmptyGrid));
}

#[test]
fn layout_without_rooms() {
    assert_eq!(Layout::new(5, 5, vec![], vec![], 0).err(), Some(LayoutError::NoRooms));
}

#[test]
fn layout_with_a_room_outside() {
    let wide = vec![Room::new(0, 0, 1, 1), Room::new(3, 0, 3, 1)];
    assert_eq!(Layout::new(5, 5, wide, vec![true], 0).err(), Some(LayoutError::RoomOutside));
    let high = vec![Room::new(0, 3, 1, 3)];
    assert_eq!(Layout::new(5, 5, high, vec![], 0).err(), Some(LayoutError::RoomOutside));
    let empty = vec![Room::new(1, 1, 0, 2)];
    assert_eq!(Layout::new(5, 5, empty, vec![], 0).err(), Some(LayoutError::RoomOutside));
    let far = vec![Room::new(u32::MAX, 0, u32::MAX, 1)];
    assert_eq!(Layout::new(5, 5, far, vec![], 0).err(), Some(LayoutError::RoomOutside));
}

#[test]
fn layout_with_the_wrong_number_of_turns() {
    let rooms = vec![Room::new(0, 0, 1, 1), Room::new(3, 0, 1, 1)];
    assert_eq!(
        Layout::new(5, 5, rooms.clone(), vec![], 0).err(),
        Some(LayoutError::TurnsMismatch)
    );
    assert_eq!(
        Layout::new(5, 5, rooms, vec![true, false], 0).err(),
        Some(LayoutError::TurnsMismatch)
    );
}

#[test]
fn layout_with_a_spawn_that_is_no_room() {
    let rooms = vec![Room::new(0, 0, 1, 1), Room::new(3, 0, 1, 1)];
    assert_eq!(Layout::new(5, 5, rooms, vec![true], 2).err(), Some(LayoutError::NoSuchSpawn));
}

#[test]
fn the_first_fault_is_reported() {
    assert_eq!(
        Layout::new(5, 5, vec![Room::new(9, 9, 1, 1)], vec![true], 7).err(),
        Some(LayoutError::RoomOutside)
    );
    assert_eq!(
        Layout::new(5, 5, vec![Room::new(0, 0, 1, 1)], vec![true], 7).err(),
        Some(LayoutError::TurnsMismatch)
    );
}
