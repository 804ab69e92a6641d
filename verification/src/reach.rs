//! Walking over floor: which tiles can be reached from which.

use crate::dungeon::{between, corridor_covers, in_corridors, in_rooms, lemma_layout_grid_cells, on_corridor};
use crate::grid::{GridView, Tile};
use crate::layout::LayoutView;
use crate::room::Room;
use vstd::prelude::*;

verus! {

/// Whether the tile `(x, y)` lies in the grid and is floor.
pub open spec fn floor(grid: GridView, x: int, y: int) -> bool {
    grid.lookup(x, y) == Some(Tile::Floor)
}

/// Whether two tiles share an edge.
pub open spec fn adjacent(a: (int, int), b: (int, int)) -> bool {
    ||| a.0 == b.0 && (a.1 - b.1 == 1 || b.1 - a.1 == 1)
    ||| a.1 == b.1 && (a.0 - b.0 == 1 || b.0 - a.0 == 1)
}

/// Whether `path` is a walk over floor: it visits at least one tile, every
/// tile it visits is floor, and each tile shares an edge with the next.
pub open spec fn walk(grid: GridView, path: Seq<(int, int)>) -> bool {
    &&& path.len() >= 1
    &&& forall|i: int| 0 <= i < path.len() ==> floor(grid, (#[trigger] path[i]).0, path[i].1)
    &&& forall|i: int| 0 <= i < path.len() - 1 ==> adjacent(#[trigger] path[i], path[i + 1])
}

/// Whether `to` can be reached from `from` by a walk over floor.
pub open spec fn joined(grid: GridView, from: (int, int), to: (int, int)) -> bool {
    exists|path: Seq<(int, int)>|
        #![trigger walk(grid, path)]
        walk(grid, path) && path[0] == from && path.last() == to
}

/// The centre tile of a room.
pub open spec fn centre(room: Room) -> (int, int) {
    (room.middle_x(), room.middle_y())
}

/// Whether the centre tile of each of `rooms` can be reached from the centre
/// tile of every other by a walk over floor.
pub open spec fn all_joined(grid: GridView, rooms: Seq<Room>) -> bool {
    forall|i: int, j: int|
        0 <= i < rooms.len() && 0 <= j < rooms.len() ==> joined(
            grid,
            centre(#[trigger] rooms[i]),
            centre(#[trigger] rooms[j]),
        )
}

/// A floor tile is reached from itself.
pub proof fn lemma_joined_to_itself(grid: GridView, at: (int, int))
    requires
        floor(grid, at.0, at.1),
    ensures
        joined(grid, at, at),
{
    let path = seq![at];
    assert(walk(grid, path) && path[0] == at && path.last() == at);
}

/// What is reached from a tile that is reached, is reached.
pub proof fn lemma_joined_onwards(grid: GridView, a: (int, int), b: (int, int), c: (int, int))
    requires
        joined(grid, a, b),
        joined(grid, b, c),
    ensures
        joined(grid, a, c),
{
    let first = choose|path: Seq<(int, int)>|
        #![trigger walk(grid, path)]
        walk(grid, path) && path[0] == a && path.last() == b;
    let second = choose|path: Seq<(int, int)>|
        #![trigger walk(grid, path)]
        walk(grid, path) && path[0] == b && path.last() == c;
    let path = first + second.drop_first();
    assert forall|i: int| 0 <= i < path.len() implies floor(
        grid,
        (#[trigger] path[i]).0,
        path[i].1,
    ) by {
        if i >= first.len() {
            assert(path[i] == second[i - first.len() + 1]);
        }
    }
    assert forall|i: int| 0 <= i < path.len() - 1 implies adjacent(
        #[trigger] path[i],
        path[i + 1],
    ) by {
        if i < first.len() - 1 {
            assert(adjacent(first[i], first[i + 1]));
        } else {
            let j = i - first.len() + 1;
            assert(path[i] == second[j]);
            assert(path[i + 1] == second[j + 1]);
            assert(adjacent(second[j], second[j + 1]));
        }
    }
    assert(walk(grid, path) && path[0] == a && path.last() == c);
}

/// A walk can be walked back.
pub proof fn lemma_joined_back(grid: GridView, a: (int, int), b: (int, int))
    requires
        joined(grid, a, b),
    ensures
        joined(grid, b, a),
{
    let there = choose|path: Seq<(int, int)>|
        #![trigger walk(grid, path)]
        walk(grid, path) && path[0] == a && path.last() == b;
    let back = Seq::new(there.len(), |i: int| there[there.len() - 1 - i]);
    assert forall|i: int| 0 <= i < back.len() - 1 implies adjacent(
        #[trigger] back[i],
        back[i + 1],
    ) by {
        let j = there.len() - 2 - i;
        assert(adjacent(there[j], there[j + 1]));
    }
    assert(walk(grid, back) && back[0] == b && back.last() == a);
}

/// A stretch of floor along a row joins its two ends.
pub proof fn lemma_row_joined(grid: GridView, x1: int, x2: int, y: int)
    requires
        forall|x: int| between(x1, x2, x) ==> #[trigger] floor(grid, x, y),
    ensures
        joined(grid, (x1, y), (x2, y)),
    decreases
        if x1 <= x2 {
            x2 - x1
        } else {
            x1 - x2
        },
{
    assert(between(x1, x2, x1));
    assert(floor(grid, x1, y));
    if x1 == x2 {
        lemma_joined_to_itself(grid, (x1, y));
    } else {
        let next = if x1 < x2 {
            x1 + 1
        } else {
            x1 - 1
        };
        assert(between(x1, x2, next));
        assert(floor(grid, next, y));
        let step = seq![(x1, y), (next, y)];
        assert(walk(grid, step) && step[0] == (x1, y) && step.last() == (next, y));
        assert forall|x: int| between(next, x2, x) implies #[trigger] floor(grid, x, y) by {
            assert(between(x1, x2, x));
        }
        lemma_row_joined(grid, next, x2, y);
        lemma_joined_onwards(grid, (x1, y), (next, y), (x2, y));
    }
}

/// A stretch of floor along a column joins its two ends.
pub proof fn lemma_column_joined(grid: GridView, y1: int, y2: int, x: int)
    requires
        forall|y: int| between(y1, y2, y) ==> #[trigger] floor(grid, x, y),
    ensures
        joined(grid, (x, y1), (x, y2)),
    decreases
        if y1 <= y2 {
            y2 - y1
        } else {
            y1 - y2
        },
{
    assert(between(y1, y2, y1));
    assert(floor(grid, x, y1));
    if y1 == y2 {
        lemma_joined_to_itself(grid, (x, y1));
    } else {
        let next = if y1 < y2 {
            y1 + 1
        } else {
            y1 - 1
        };
        assert(between(y1, y2, next));
        assert(floor(grid, x, next));
        let step = seq![(x, y1), (x, next)];
        assert(walk(grid, step) && step[0] == (x, y1) && step.last() == (x, next));
        assert forall|y: int| between(next, y2, y) implies #[trigger] floor(grid, x, y) by {
            assert(between(y1, y2, y));
        }
        lemma_column_joined(grid, next, y2, x);
        lemma_joined_onwards(grid, (x, y1), (x, next), (x, y2));
    }
}

/// Where every tile of the corridor between two rooms is floor, the centre
/// tiles of the two rooms are joined.
pub proof fn lemma_corridor_joins(grid: GridView, from: Room, to: Room, row_first: bool)
    requires
        forall|x: int, y: int|
            on_corridor(from, to, row_first, x, y) ==> #[trigger] floor(grid, x, y),
    ensures
        joined(grid, centre(from), centre(to)),
{
    let (fx, fy) = centre(from);
    let (tx, ty) = centre(to);
    if row_first {
        assert forall|x: int| between(fx, tx, x) implies #[trigger] floor(grid, x, fy) by {
            assert(on_corridor(from, to, row_first, x, fy));
        }
        assert forall|y: int| between(fy, ty, y) implies #[trigger] floor(grid, tx, y) by {
            assert(on_corridor(from, to, row_first, tx, y));
        }
        lemma_row_joined(grid, fx, tx, fy);
        lemma_column_joined(grid, fy, ty, tx);
        lemma_joined_onwards(grid, (fx, fy), (tx, fy), (tx, ty));
    } else {
        assert forall|y: int| between(fy, ty, y) implies #[trigger] floor(grid, fx, y) by {
            assert(on_corridor(from, to, row_first, fx, y));
        }
        assert forall|x: int| between(fx, tx, x) implies #[trigger] floor(grid, x, ty) by {
            assert(on_corridor(from, to, row_first, x, ty));
        }
        lemma_column_joined(grid, fy, ty, fx);
        lemma_row_joined(grid, fx, tx, ty);
        lemma_joined_onwards(grid, (fx, fy), (fx, ty), (tx, ty));
    }
}

/// In the grid of a valid layout, every tile of every corridor is floor.
proof fn lemma_corridor_is_floor(layout: LayoutView, k: int, x: int, y: int)
    requires
        layout.valid(),
        0 <= k < layout.turns.len(),
        corridor_covers(layout.rooms, layout.turns, k, x, y),
    ensures
        floor(layout.grid(), x, y),
{
    let (from, to) = (layout.rooms[k], layout.rooms[k + 1]);
    assert(from.fits(layout.width as int, layout.height as int));
    assert(to.fits(layout.width as int, layout.height as int));
    assert(in_corridors(layout.rooms, layout.turns, layout.turns.len() as int, x, y));
    lemma_layout_grid_cells(layout);
    assert(layout.grid().contains(x, y));
}

/// In the grid of a valid layout, the centre tile of the first room is
/// joined to that of room `k`.
proof fn lemma_joined_to_first(layout: LayoutView, k: int)
    requires
        layout.valid(),
        0 <= k < layout.rooms.len(),
    ensures
        joined(layout.grid(), centre(layout.rooms[0]), centre(layout.rooms[k])),
    decreases k,
{
    let grid = layout.grid();
    if k == 0 {
        let room = layout.rooms[0];
        assert(room.fits(layout.width as int, layout.height as int));
        assert(room.covers(room.middle_x(), room.middle_y()));
        assert(in_rooms(layout.rooms, layout.rooms.len() as int, room.middle_x(), room.middle_y()));
        lemma_layout_grid_cells(layout);
        assert(grid.contains(room.middle_x(), room.middle_y()));
        lemma_joined_to_itself(grid, centre(room));
    } else {
        lemma_joined_to_first(layout, k - 1);
        let (from, to) = (layout.rooms[k - 1], layout.rooms[k]);
        assert forall|x: int, y: int|
            on_corridor(from, to, layout.turns[k - 1], x, y) implies #[trigger] floor(
            grid,
            x,
            y,
        ) by {
            assert(corridor_covers(layout.rooms, layout.turns, k - 1, x, y));
            lemma_corridor_is_floor(layout, k - 1, x, y);
        }
        lemma_corridor_joins(grid, from, to, layout.turns[k - 1]);
        lemma_joined_onwards(grid, centre(layout.rooms[0]), centre(from), centre(to));
    }
}

/// In the dungeon built from a valid layout, the centre tile of every room
/// can be reached from the centre tile of every other room by a walk over
/// floor.
pub proof fn lemma_rooms_are_joined(layout: LayoutView)
    requires
        layout.valid(),
    ensures
        all_joined(layout.grid(), layout.rooms),
{
    let grid = layout.grid();
    assert forall|i: int, j: int|
        0 <= i < layout.rooms.len() && 0 <= j < layout.rooms.len() implies joined(
        grid,
        centre(#[trigger] layout.rooms[i]),
        centre(#[trigger] layout.rooms[j]),
    ) by {
        lemma_joined_to_first(layout, i);
        lemma_joined_to_first(layout, j);
        lemma_joined_back(grid, centre(layout.rooms[0]), centre(layout.rooms[i]));
        lemma_joined_onwards(
            grid,
            centre(layout.rooms[i]),
            centre(layout.rooms[0]),
            centre(layout.rooms[j]),
        );
    }
}

} // verus!
