use mount_arelle::dungeon::{carve_h, carve_room, carve_v, connect, Dungeon};
use mount_arelle::grid::{Grid, Tile};
use mount_arelle::layout::Layout;
use mount_arelle::room::Room;

fn picture(grid: &Grid) -> Vec<String> {
    (0..grid.height())
        .map(|y| {
            (0..grid.width())
                .map(|x| if grid.get(x, y) == Some(&Tile::Floor) { '.' } else { '#' })
                .collect()
        })
        .collect()
}

fn reached(grid: &Grid, from: (u32, u32)) -> Vec<Vec<bool>> {
    let mut seen = vec![vec![false; grid.width() as usize]; grid.height() as usize];
    let mut open = vec![from];
    while let Some((x, y)) = open.pop() {
        if grid.blocked(x, y) || seen[y as usize][x as usize] {
            continue;
        }
        seen[y as usize][x as usize] = true;
        open.push((x + 1, y));
        open.push((x, y + 1));
        if x > 0 {
            open.push((x - 1, y));
        }
        if y > 0 {
            open.push((x, y - 1));
        }
    }
    seen
}

#[test]
fn carve_h_opens_a_row_between_both_ends() {
    let mut grid = Grid::new(6, 3, Tile::Wall);
    carve_h(&mut grid, 1, 4, 1);
    assert_eq!(picture(&grid), vec!["######", "#....#", "######"]);
    let mut back = Grid::new(6, 3, Tile::Wall);
    carve_h(&mut back, 4, 1, 1);
    assert_eq!(picture(&back), picture(&grid));
}

#[test]
fn carve_h_of_one_tile() {
    let mut grid = Grid::new(3, 1, Tile::Wall);
    carve_h(&mut grid, 2, 2, 0);
    assert_eq!(picture(&grid), vec!["##."]);
}

#[test]
fn carve_v_opens_a_column_between_both_ends() {
    let mut grid = Grid::new(3, 5, Tile::Wall);
    carve_v(&mut grid, 3, 1, 2);
    assert_eq!(picture(&grid), vec!["###", "##.", "##.", "##.", "###"]);
    let mut back = Grid::new(3, 5, Tile::Wall);
    carve_v(&mut back, 1, 3, 2);
    assert_eq!(picture(&back), picture(&grid));
}

#[test]
fn carve_room_leaves_the_far_bounds_out() {
    let mut grid = Grid::new(5, 4, Tile::Wall);
    carve_room(&mut grid, &Room::new(1, 1, 3, 2));
    assert_eq!(picture(&grid), vec!["#####", "#...#", "#...#", "#####"]);
}

#[test]
fn carve_room_of_no_tiles_changes_nothing() {
    let mut grid = Grid::new(3, 2, Tile::Wall);
    carve_room(&mut grid, &Room::new(1, 1, 0, 1));
    carve_room(&mut grid, &Room::new(3, 2, 0, 0));
    assert_eq!(picture(&grid), vec!["###", "###"]);
}

#[test]
fn connect_along_the_row_first() {
    let mut grid = Grid::new(8, 6, Tile::Wall);
    connect(&mut grid, &Room::new(0, 0, 3, 3), &Room::new(5, 3, 3, 3), true);
    assert_eq!(
        picture(&grid),
        vec!["########", "#......#", "######.#", "######.#", "######.#", "########"]
    );
}

#[test]
fn connect_along_the_column_first() {
    let mut grid = Grid::new(8, 6, Tile::Wall);
    connect(&mut grid, &Room::new(0, 0, 3, 3), &Room::new(5, 3, 3, 3), false);
    assert_eq!(
        picture(&grid),
        vec!["########", "#.######", "#.######", "#.######", "#......#", "########"]
    );
}

#[test]
fn connect_towards_the_top_left() {
    let mut grid = Grid::new(8, 6, Tile::Wall);
    connect(&mut grid, &Room::new(5, 3, 3, 3), &Room::new(0, 0, 3, 3), true);
    assert_eq!(
        picture(&grid),
        vec!["########", "#.######", "#.######", "#.######", "#......#", "########"]
    );
}

#[test]
fn build_carves_rooms_and_corridors() {
    let rooms = vec![Room::new(1, 1, 3, 3), Room::new(6, 4, 3, 3), Room::new(1, 6, 2, 1)];
    let layout = Layout::new(10, 8, rooms, vec![true, false], 1).unwrap();
    let dungeon = Dungeon::build(&layout);
    assert_eq!(
        picture(dungeon.grid()),
        vec![
            "##########",
            "#...######",
            "#.......##",
            "#...###.##",
            "######...#",
            "######...#",
            "#........#",
            "##########",
        ]
    );
}

#[test]
fn build_puts_the_player_at_the_centre_of_its_room() {
    let rooms = vec![Room::new(1, 1, 3, 3), Room::new(6, 4, 2, 3)];
    let first = Dungeon::build(&Layout::new(10, 8, rooms.clone(), vec![true], 0).unwrap());
    assert_eq!(first.player_spawn(), (5, 5));
    let second = Dungeon::build(&Layout::new(10, 8, rooms, vec![true], 1).unwrap());
    assert_eq!(second.player_spawn(), (14, 11));
    assert_eq!(second.grid().get(7, 5), Some(&Tile::Floor));
}

#[test]
fn build_of_one_room_that_fills_the_grid() {
    let layout = Layout::new(2, 2, vec![Room::new(0, 0, 2, 2)], vec![], 0).unwrap();
    let dungeon = Dungeon::build(&layout);
    assert_eq!(picture(dungeon.grid()), vec!["..", ".."]);
    assert_eq!(dungeon.player_spawn(), (2, 2));
}

#[test]
fn equal_seeds_give_equal_dungeons() {
    for seed in ["", "a", "mount arelle", "Ünïcödé"] {
        let first = Dungeon::new_from_seed(seed);
        let second = Dungeon::new_from_seed(seed);
        assert_eq!(first.grid().width(), second.grid().width());
        assert_eq!(first.grid().height(), second.grid().height());
        assert_eq!(picture(first.grid()), picture(second.grid()));
        assert_eq!(first.player_spawn(), second.player_spawn());
    }
}

#[test]
fn a_dungeon_is_built_from_the_layout_of_its_seed() {
    for seed in ["", "a", "mount arelle"] {
        let dungeon = Dungeon::new_from_seed(seed);
        let built = Dungeon::build(&Layout::draw(seed));
        assert_eq!(picture(dungeon.grid()), picture(built.grid()));
        assert_eq!(dungeon.player_spawn(), built.player_spawn());
    }
}

#[test]
fn generated_sides_are_within_bounds() {
    for n in 0..40 {
        let dungeon = Dungeon::new_from_seed(&format!("bounds {}", n));
        let (w, h) = (dungeon.grid().width(), dungeon.grid().height());
        assert!(50 <= w && w <= 150 && 50 <= h && h <= 150);
    }
}

#[test]
fn the_player_starts_on_floor() {
    for n in 0..40 {
        let dungeon = Dungeon::new_from_seed(&format!("spawn {}", n));
        let (x, y) = dungeon.player_spawn();
        assert_eq!(dungeon.grid().get((x / 2) as u32, (y / 2) as u32), Some(&Tile::Floor));
    }
}

#[test]
fn floor_is_rooms_and_corridors() {
    for n in 0..10 {
        let layout = Layout::draw(&format!("floor {}", n));
        let dungeon = Dungeon::build(&layout);
        let rooms = layout.rooms();
        let mut expected = Grid::new(layout.width(), layout.height(), Tile::Wall);
        for room in rooms {
            carve_room(&mut expected, room);
        }
        for (k, turn) in layout.turns().iter().enumerate() {
            connect(&mut expected, &rooms[k], &rooms[k + 1], *turn);
        }
        assert_eq!(picture(dungeon.grid()), picture(&expected));
        for room in rooms {
            for x in room.x1()..room.x2() {
                for y in room.y1()..room.y2() {
                    assert_eq!(dungeon.grid().get(x, y), Some(&Tile::Floor));
                }
            }
        }
    }
}

#[test]
fn every_room_is_reached_from_every_other() {
    for n in 0..20 {
        let layout = Layout::draw(&format!("reach {}", n));
        let dungeon = Dungeon::build(&layout);
        let rooms = layout.rooms();
        let seen = reached(dungeon.grid(), (rooms[0].center_x(), rooms[0].center_y()));
        for room in rooms {
            assert!(seen[room.center_y() as usize][room.center_x() as usize]);
        }
    }
}

#[test]
fn a_wall_stays_around_the_rooms() {
    for n in 0..10 {
        let dungeon = Dungeon::new_from_seed(&format!("edge {}", n));
        let grid = dungeon.grid();
        for x in 0..grid.width() {
            assert_eq!(grid.get(x, grid.height() - 1), Some(&Tile::Wall));
        }
        for y in 0..grid.height() {
            assert_eq!(grid.get(grid.width() - 1, y), Some(&Tile::Wall));
        }
    }
}
