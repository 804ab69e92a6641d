use mount_arelle::grid::{Grid, Tile};

#[test]
fn test_get() {
    let grid = Grid::new(3, 3, Tile::Wall);
    assert_eq!(grid.get(1, 1), Some(&Tile::Wall));
    assert_eq!(grid.get(2, 2), Some(&Tile::Wall));
    assert_eq!(grid.get(2, 3), None);
    assert_eq!(grid.get(3, 2), None);
}

#[test]
fn check_openings() {
    let mut grid = Grid::new(3, 3, Tile::Wall);
    assert_eq!(grid.openings(1, 1), None);

    grid.set(1, 0, Tile::Floor);
    grid.set(1, 1, Tile::Floor);
    grid.set(2, 1, Tile::Floor);

    assert_eq!(grid.openings(1, 1), Some(2));
    assert_eq!(grid.openings(1, 0), Some(2));
    assert_eq!(grid.openings(2, 1), Some(2));

    grid.set(1, 2, Tile::Floor);
    assert_eq!(grid.openings(1, 1), Some(3));

    grid.set(0, 0, Tile::Floor);
    assert_eq!(grid.openings(1, 1), Some(3));
}

#[test]
fn new_fills_every_cell() {
    let grid = Grid::new(4, 2, Tile::Floor);
    assert_eq!(grid.width(), 4);
    assert_eq!(grid.height(), 2);
    for y in 0..2 {
        for x in 0..4 {
            assert_eq!(grid.get(x, y), Some(&Tile::Floor));
        }
    }
}

#[test]
fn get_is_none_past_the_last_column_of_any_row() {
    let grid = Grid::new(3, 3, Tile::Wall);
    assert_eq!(grid.get(3, 0), None);
    assert_eq!(grid.get(3, 1), None);
    assert_eq!(grid.get(0, 3), None);
    assert_eq!(grid.get(u32::MAX, u32::MAX), None);
}

#[test]
fn set_changes_one_cell() {
    let mut grid = Grid::new(3, 2, Tile::Wall);
    grid.set(2, 1, Tile::Floor);
    for y in 0..2 {
        for x in 0..3 {
            let expected = if (x, y) == (2, 1) { Tile::Floor } else { Tile::Wall };
            assert_eq!(grid.get(x, y), Some(&expected));
        }
    }
    grid.set(2, 1, Tile::Wall);
    assert_eq!(grid.get(2, 1), Some(&Tile::Wall));
}

#[test]
fn get_mut_writes_through() {
    let mut grid = Grid::new(3, 2, Tile::Wall);
    match grid.get_mut(0, 1) {
        Some(tile) => {
            assert_eq!(*tile, Tile::Wall);
            *tile = Tile::Floor;
        }
        None => panic!("the cell lies in the grid"),
    }
    assert_eq!(grid.get(0, 1), Some(&Tile::Floor));
    assert_eq!(grid.get(1, 0), Some(&Tile::Wall));
    assert_eq!(grid.get(0, 0), Some(&Tile::Wall));
    assert!(grid.get_mut(3, 0).is_none());
    assert!(grid.get_mut(0, 2).is_none());
}

#[test]
fn blocked_by_walls_and_by_the_edge() {
    let mut grid = Grid::new(2, 2, Tile::Wall);
    grid.set(1, 1, Tile::Floor);
    assert!(grid.blocked(0, 0));
    assert!(!grid.blocked(1, 1));
    assert!(grid.blocked(2, 1));
    assert!(grid.blocked(1, 2));
}

#[test]
fn openings_of_walls_and_outside_are_none() {
    let mut grid = Grid::new(3, 3, Tile::Wall);
    grid.set(1, 1, Tile::Floor);
    assert_eq!(grid.openings(0, 0), None);
    assert_eq!(grid.openings(3, 1), None);
    assert_eq!(grid.openings(1, 3), None);
}

#[test]
fn openings_count_each_side() {
    let mut grid = Grid::new(3, 3, Tile::Floor);
    assert_eq!(grid.openings(0, 0), Some(4));
    assert_eq!(grid.openings(2, 2), Some(4));
    assert_eq!(grid.openings(0, 1), Some(4));
    assert_eq!(grid.openings(1, 1), Some(4));
    grid.set(1, 0, Tile::Wall);
    grid.set(1, 2, Tile::Wall);
    grid.set(0, 1, Tile::Wall);
    grid.set(2, 1, Tile::Wall);
    assert_eq!(grid.openings(1, 1), Some(0));
    assert_eq!(grid.openings(0, 0), Some(2));
}

#[test]
fn openings_of_a_single_cell() {
    let grid = Grid::new(1, 1, Tile::Floor);
    assert_eq!(grid.openings(0, 0), Some(4));
}

#[test]
fn openings_on_the_edge_count_the_side_that_faces_outside() {
    let mut grid = Grid::new(3, 2, Tile::Wall);
    grid.set(0, 0, Tile::Floor);
    assert_eq!(grid.openings(0, 0), Some(2));
    grid.set(1, 0, Tile::Floor);
    assert_eq!(grid.openings(0, 0), Some(3));
    assert_eq!(grid.openings(1, 0), Some(2));
    grid.set(1, 1, Tile::Floor);
    assert_eq!(grid.openings(1, 0), Some(3));
    assert_eq!(grid.openings(1, 1), Some(2));
    grid.set(2, 1, Tile::Floor);
    assert_eq!(grid.openings(2, 1), Some(3));
}
