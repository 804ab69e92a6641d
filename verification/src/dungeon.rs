//! The dungeon: a grid of rooms joined by corridors, and a spawn point.
//!
//! A dungeon is built from a [`Layout`]. Every tile is wall but those of the
//! rooms and of the corridors, one corridor from each room to the room placed
//! before it. A corridor runs straight along a row and straight along a
//! column between the centre tiles of its two rooms.

use crate::grid::{lemma_cell_index, lemma_cells_make_the_grid, Grid, GridView, Tile};
use crate::layout::{drawn_layout, Layout, LayoutView};
use crate::reach::{all_joined, lemma_rooms_are_joined};
use crate::room::Room;
use vstd::arithmetic::div_mod::lemma_fundamental_div_mod_converse;
use vstd::prelude::*;
use vstd::string::StringSliceAdditionalSpecFns;

verus! {

/// Whether `c` lies between `a` and `b`, whichever of them is larger, the two
/// included.
pub open spec fn between(a: int, b: int, c: int) -> bool {
    (a <= c <= b) || (b <= c <= a)
}

/// Whether the tile `(x, y)` lies on the corridor from the centre tile of
/// `from` to that of `to`. Where `row_first`, the corridor leaves `from`
/// along its row and reaches `to` along its column; else it leaves along the
/// column and arrives along the row.
pub open spec fn on_corridor(from: Room, to: Room, row_first: bool, x: int, y: int) -> bool {
    if row_first {
        ||| y == from.middle_y() && between(from.middle_x(), to.middle_x(), x)
        ||| x == to.middle_x() && between(from.middle_y(), to.middle_y(), y)
    } else {
        ||| x == from.middle_x() && between(from.middle_y(), to.middle_y(), y)
        ||| y == to.middle_y() && between(from.middle_x(), to.middle_x(), x)
    }
}

/// Whether the tile `(x, y)` belongs to one of the first `n` of `rooms`.
pub open spec fn in_rooms(rooms: Seq<Room>, n: int, x: int, y: int) -> bool {
    exists|i: int| 0 <= i < n && (#[trigger] rooms[i]).covers(x, y)
}

/// Whether the corridor that leaves room `k` covers the tile `(x, y)`.
pub open spec fn corridor_covers(rooms: Seq<Room>, turns: Seq<bool>, k: int, x: int, y: int) -> bool {
    on_corridor(rooms[k], rooms[k + 1], turns[k], x, y)
}

/// Whether the tile `(x, y)` lies on one of the first `n` corridors.
pub open spec fn in_corridors(rooms: Seq<Room>, turns: Seq<bool>, n: int, x: int, y: int) -> bool {
    exists|k: int| 0 <= k < n && #[trigger] corridor_covers(rooms, turns, k, x, y)
}

/// Floor where `open`, wall elsewhere.
pub open spec fn tile_of(open: bool) -> Tile {
    if open {
        Tile::Floor
    } else {
        Tile::Wall
    }
}

impl LayoutView {
    /// Whether the tile `(x, y)` is floor in the dungeon built from the
    /// layout: it belongs to a room or to a corridor.
    pub open spec fn floor_at(self, x: int, y: int) -> bool {
        ||| in_rooms(self.rooms, self.rooms.len() as int, x, y)
        ||| in_corridors(self.rooms, self.turns, self.turns.len() as int, x, y)
    }

    /// The grid of the dungeon built from the layout.
    pub open spec fn grid(self) -> GridView {
        GridView {
            width: self.width,
            height: self.height,
            tiles: Seq::new(
                self.width * self.height,
                |i: int| tile_of(self.floor_at(i % (self.width as int), i / (self.width as int))),
            ),
        }
    }

    /// The centre of the room that the player starts in, in half tiles.
    pub open spec fn spawn_point(self) -> (nat, nat) {
        ((2 * self.spawn.x + self.spawn.w) as nat, (2 * self.spawn.y + self.spawn.h) as nat)
    }
}

/// The mathematical content of a [`Dungeon`]: its grid, and the point at
/// which the player starts, in half tiles.
pub struct DungeonView {
    pub grid: GridView,
    pub spawn: (nat, nat),
}

impl DungeonView {
    /// The tile that holds the spawn point.
    pub open spec fn spawn_tile(self) -> (int, int) {
        (self.spawn.0 as int / 2, self.spawn.1 as int / 2)
    }
}

/// The dungeon that is built from a layout.
pub open spec fn built(layout: LayoutView) -> DungeonView {
    DungeonView { grid: layout.grid(), spawn: layout.spawn_point() }
}

/// The dungeon that is generated from a seed with the given bytes.
pub open spec fn generated(bytes: Seq<u8>) -> DungeonView {
    built(drawn_layout(bytes))
}

/// Generation is a function of the seed: two dungeons generated from the
/// same bytes have the same grid and the same spawn point.
pub proof fn lemma_same_seed_same_dungeon(seed: Seq<u8>, first: DungeonView, second: DungeonView)
    requires
        first == generated(seed),
        second == generated(seed),
    ensures
        first.grid == second.grid,
        first.spawn == second.spawn,
{
}

/// Turns the tiles of row `y` from column `x1` to column `x2`, both
/// included and in either order, into floor. Both ends must lie in the grid.
pub fn carve_h(grid: &mut Grid, x1: u32, x2: u32, y: u32)
    requires
        old(grid)@.contains(x1 as int, y as int),
        old(grid)@.contains(x2 as int, y as int),
    ensures
        final(grid)@.wf(),
        final(grid)@.width == old(grid)@.width,
        final(grid)@.height == old(grid)@.height,
        forall|u: int, v: int|
            old(grid)@.contains(u, v) ==> #[trigger] final(grid)@.at(u, v) == if v == y
                && between(x1 as int, x2 as int, u) {
                Tile::Floor
            } else {
                old(grid)@.at(u, v)
            },
{
    let lowest = if x1 < x2 { x1 } else { x2 };
    let highest = if x1 > x2 { x1 } else { x2 };
    proof {
        use_type_invariant(&*grid);
    }
    let ghost start = grid@;
    let mut x = lowest;
    while x <= highest
        invariant
            lowest <= x <= highest + 1,
            highest < start.width <= u32::MAX,
            y < start.height,
            grid@.wf(),
            grid@.width == start.width,
            grid@.height == start.height,
            forall|u: int, v: int|
                start.contains(u, v) ==> #[trigger] grid@.at(u, v) == if v == y && lowest <= u
                    < x {
                    Tile::Floor
                } else {
                    start.at(u, v)
                },
        decreases highest + 1 - x,
    {
        grid.set(x, y, Tile::Floor);
        x += 1;
    }
}

/// Turns the tiles of column `x` from row `y1` to row `y2`, both included
/// and in either order, into floor. Both ends must lie in the grid.
pub fn carve_v(grid: &mut Grid, y1: u32, y2: u32, x: u32)
    requires
        old(grid)@.contains(x as int, y1 as int),
        old(grid)@.contains(x as int, y2 as int),
    ensures
        final(grid)@.wf(),
        final(grid)@.width == old(grid)@.width,
        final(grid)@.height == old(grid)@.height,
        forall|u: int, v: int|
            old(grid)@.contains(u, v) ==> #[trigger] final(grid)@.at(u, v) == if u == x
                && between(y1 as int, y2 as int, v) {
                Tile::Floor
            } else {
                old(grid)@.at(u, v)
            },
{
    let lowest = if y1 < y2 { y1 } else { y2 };
    let highest = if y1 > y2 { y1 } else { y2 };
    proof {
        use_type_invariant(&*grid);
    }
    let ghost start = grid@;
    let mut y = lowest;
    while y <= highest
        invariant
            lowest <= y <= highest + 1,
            highest < start.height <= u32::MAX,
            x < start.width,
            grid@.wf(),
            grid@.width == start.width,
            grid@.height == start.height,
            forall|u: int, v: int|
                start.contains(u, v) ==> #[trigger] grid@.at(u, v) == if u == x && lowest <= v
                    < y {
                    Tile::Floor
                } else {
                    start.at(u, v)
                },
        decreases highest + 1 - y,
    {
        grid.set(x, y, Tile::Floor);
        y += 1;
    }
}

/// Turns the tiles of `room` into floor. The room must end inside the grid.
pub fn carve_room(grid: &mut Grid, room: &Room)
    requires
        room.right() <= old(grid)@.width,
        room.bottom() <= old(grid)@.height,
    ensures
        final(grid)@.wf(),
        final(grid)@.width == old(grid)@.width,
        final(grid)@.height == old(grid)@.height,
        forall|u: int, v: int|
            old(grid)@.contains(u, v) ==> #[trigger] final(grid)@.at(u, v) == if room.covers(
                u,
                v,
            ) {
                Tile::Floor
            } else {
                old(grid)@.at(u, v)
            },
{
    proof {
        use_type_invariant(&*grid);
    }
    let ghost start = grid@;
    let (x1, x2) = (room.x1(), room.x2());
    let (y1, y2) = (room.y1(), room.y2());
    let mut x = x1;
    while x < x2
        invariant
            x1 <= x <= x2,
            x1 == room.left(),
            x2 == room.right(),
            y1 == room.top(),
            y2 == room.bottom(),
            y1 <= y2,
            x2 <= start.width,
            y2 <= start.height,
            grid@.wf(),
            grid@.width == start.width,
            grid@.height == start.height,
            forall|u: int, v: int|
                start.contains(u, v) ==> #[trigger] grid@.at(u, v) == if room.covers(u, v) && u
                    < x {
                    Tile::Floor
                } else {
                    start.at(u, v)
                },
        decreases x2 - x,
    {
        let mut y = y1;
        while y < y2
            invariant
                x1 <= x < x2,
                y1 <= y <= y2,
                x1 == room.left(),
                x2 == room.right(),
                y1 == room.top(),
                y2 == room.bottom(),
                x2 <= start.width,
                y2 <= start.height,
                grid@.wf(),
                grid@.width == start.width,
                grid@.height == start.height,
                forall|u: int, v: int|
                    start.contains(u, v) ==> #[trigger] grid@.at(u, v) == if room.covers(u, v)
                        && (u < x || (u == x && v < y)) {
                        Tile::Floor
                    } else {
                        start.at(u, v)
                    },
            decreases y2 - y,
        {
            grid.set(x, y, Tile::Floor);
            y += 1;
        }
        x += 1;
    }
}

/// Carves the corridor from the centre tile of `from` to that of `to`: along
/// the row of `from` and the column of `to` where `row_first`, else along the
/// column of `from` and the row of `to`. Both rooms must lie in the grid.
pub fn connect(grid: &mut Grid, from: &Room, to: &Room, row_first: bool)
    requires
        from.fits(old(grid)@.width as int, old(grid)@.height as int),
        to.fits(old(grid)@.width as int, old(grid)@.height as int),
    ensures
        final(grid)@.wf(),
        final(grid)@.width == old(grid)@.width,
        final(grid)@.height == old(grid)@.height,
        forall|u: int, v: int|
            old(grid)@.contains(u, v) ==> #[trigger] final(grid)@.at(u, v) == if on_corridor(
                *from,
                *to,
                row_first,
                u,
                v,
            ) {
                Tile::Floor
            } else {
                old(grid)@.at(u, v)
            },
{
    proof {
        use_type_invariant(&*grid);
    }
    if row_first {
        carve_h(grid, from.center_x(), to.center_x(), from.center_y());
        carve_v(grid, from.center_y(), to.center_y(), to.center_x());
    } else {
        carve_v(grid, from.center_y(), to.center_y(), from.center_x());
        carve_h(grid, from.center_x(), to.center_x(), to.center_y());
    }
}

/// The grid of a layout holds floor exactly in the cells of its rooms and
/// corridors.
pub proof fn lemma_layout_grid_cells(layout: LayoutView)
    requires
        0 < layout.width <= u32::MAX,
        0 < layout.height <= u32::MAX,
    ensures
        layout.grid().wf(),
        forall|x: int, y: int|
            layout.grid().contains(x, y) ==> #[trigger] layout.grid().at(x, y) == tile_of(
                layout.floor_at(x, y),
            ),
{
    let width = layout.width as int;
    assert forall|x: int, y: int| layout.grid().contains(x, y) implies #[trigger] layout.grid().at(
        x,
        y,
    ) == tile_of(layout.floor_at(x, y)) by {
        lemma_cell_index(x, y, width, layout.height as int);
        assert(x + width * y == y * width + x) by (nonlinear_arith);
        lemma_fundamental_div_mod_converse(x + width * y, width, y, x);
    }
}

/// The first `n + 1` rooms cover what the first `n` cover and what room `n`
/// covers.
proof fn lemma_one_more_room(rooms: Seq<Room>, n: int, x: int, y: int)
    requires
        0 <= n,
    ensures
        in_rooms(rooms, n + 1, x, y) == (in_rooms(rooms, n, x, y) || rooms[n].covers(x, y)),
{
    if in_rooms(rooms, n + 1, x, y) {
        let i = choose|i: int| 0 <= i < n + 1 && (#[trigger] rooms[i]).covers(x, y);
        if i < n {
            assert(in_rooms(rooms, n, x, y));
        }
    }
    if in_rooms(rooms, n, x, y) {
        let i = choose|i: int| 0 <= i < n && (#[trigger] rooms[i]).covers(x, y);
        assert(0 <= i < n + 1 && rooms[i].covers(x, y));
    }
    if rooms[n].covers(x, y) {
        assert(0 <= n < n + 1 && rooms[n].covers(x, y));
    }
}

/// The first `n + 1` corridors cover what the first `n` cover and what
/// corridor `n` covers.
proof fn lemma_one_more_corridor(rooms: Seq<Room>, turns: Seq<bool>, n: int, x: int, y: int)
    requires
        0 <= n,
    ensures
        in_corridors(rooms, turns, n + 1, x, y) == (in_corridors(rooms, turns, n, x, y)
            || corridor_covers(rooms, turns, n, x, y)),
{
    if in_corridors(rooms, turns, n + 1, x, y) {
        let k = choose|k: int| 0 <= k < n + 1 && #[trigger] corridor_covers(rooms, turns, k, x, y);
        if k < n {
            assert(in_corridors(rooms, turns, n, x, y));
        }
    }
    if in_corridors(rooms, turns, n, x, y) {
        let k = choose|k: int| 0 <= k < n && #[trigger] corridor_covers(rooms, turns, k, x, y);
        assert(0 <= k < n + 1 && corridor_covers(rooms, turns, k, x, y));
    }
    if corridor_covers(rooms, turns, n, x, y) {
        assert(0 <= n < n + 1 && corridor_covers(rooms, turns, n, x, y));
    }
}

/// A grid and the point at which the player starts: the centre of a room,
/// which lies in a floor tile.
#[derive(Debug)]
pub struct Dungeon {
    grid: Grid,
    player_spawn: (u64, u64),
}

impl View for Dungeon {
    type V = DungeonView;

    closed spec fn view(&self) -> DungeonView {
        DungeonView {
            grid: self.grid@,
            spawn: (self.player_spawn.0 as nat, self.player_spawn.1 as nat),
        }
    }
}

impl DungeonView {
    /// Whether the player starts in a floor tile of the grid.
    pub open spec fn spawn_on_floor(self) -> bool {
        self.grid.lookup(self.spawn_tile().0, self.spawn_tile().1) == Some(Tile::Floor)
    }
}

impl Dungeon {
    #[verifier::type_invariant]
    spec fn well_formed(self) -> bool {
        self@.grid.wf() && self@.spawn_on_floor()
    }

    /// The dungeon of `layout`: walls everywhere but in the rooms and on the
    /// corridors, and the player at the centre of the room chosen for it.
    pub fn build(layout: &Layout) -> (dungeon: Dungeon)
        ensures
            dungeon@ == built(layout@),
            dungeon@.grid.wf(),
            dungeon@.spawn_on_floor(),
            all_joined(dungeon@.grid, layout@.rooms),
    {
        proof {
            use_type_invariant(layout);
        }
        let ghost plan = layout@;
        let rooms = layout.rooms();
        let turns = layout.turns();
        let mut grid = Grid::new(layout.width(), layout.height(), Tile::Wall);
        assert forall|u: int, v: int| grid@.contains(u, v) implies #[trigger] grid@.at(u, v)
            == Tile::Wall by {
            lemma_cell_index(u, v, grid@.width as int, grid@.height as int);
        }
        let mut i: usize = 0;
        while i < rooms.len()
            invariant
                i <= rooms.len(),
                plan.valid(),
                rooms@ == plan.rooms,
                grid@.wf(),
                grid@.width == plan.width,
                grid@.height == plan.height,
                forall|u: int, v: int|
                    grid@.contains(u, v) ==> #[trigger] grid@.at(u, v) == tile_of(
                        in_rooms(plan.rooms, i as int, u, v),
                    ),
            decreases rooms.len() - i,
        {
            let ghost before = grid@;
            carve_room(&mut grid, &rooms[i]);
            assert forall|u: int, v: int| grid@.contains(u, v) implies #[trigger] grid@.at(u, v)
                == tile_of(in_rooms(plan.rooms, i + 1, u, v)) by {
                assert(before.contains(u, v));
                lemma_one_more_room(plan.rooms, i as int, u, v);
            }
            i += 1;
        }
        let mut k: usize = 0;
        while k < turns.len()
            invariant
                k <= turns.len(),
                plan.valid(),
                rooms@ == plan.rooms,
                turns@ == plan.turns,
                grid@.wf(),
                grid@.width == plan.width,
                grid@.height == plan.height,
                forall|u: int, v: int|
                    grid@.contains(u, v) ==> #[trigger] grid@.at(u, v) == tile_of(
                        in_rooms(plan.rooms, plan.rooms.len() as int, u, v) || in_corridors(
                            plan.rooms,
                            plan.turns,
                            k as int,
                            u,
                            v,
                        ),
                    ),
            decreases turns.len() - k,
        {
            let ghost before = grid@;
            connect(&mut grid, &rooms[k], &rooms[k + 1], turns[k]);
            assert forall|u: int, v: int| grid@.contains(u, v) implies #[trigger] grid@.at(u, v)
                == tile_of(
                in_rooms(plan.rooms, plan.rooms.len() as int, u, v) || in_corridors(
                    plan.rooms,
                    plan.turns,
                    k + 1,
                    u,
                    v,
                ),
            ) by {
                assert(before.contains(u, v));
                lemma_one_more_corridor(plan.rooms, plan.turns, k as int, u, v);
            }
            k += 1;
        }
        let spawn = layout.spawn();
        proof {
            lemma_layout_grid_cells(plan);
            lemma_cells_make_the_grid(grid@, plan.grid());
            lemma_rooms_are_joined(plan);
            let at = choose|at: int| 0 <= at < plan.rooms.len() && plan.rooms[at] == spawn;
            assert(plan.rooms[at].fits(plan.width as int, plan.height as int));
            assert(plan.rooms[at].covers(spawn.middle_x(), spawn.middle_y()));
            assert(in_rooms(plan.rooms, plan.rooms.len() as int, spawn.middle_x(), spawn.middle_y()));
        }
        Dungeon { grid, player_spawn: spawn.center() }
    }

    /// The dungeon that is generated from `seed`. It is a function of the
    /// bytes of the seed: equal seeds give equal dungeons.
    ///
    /// Whatever the seed, its layout is as every drawn layout is: the grid is
    /// between 50 and 150 tiles wide and high, both sides within the range of
    /// one size of dungeon, and no two of the rooms that were placed meet.
    /// The centre tile of each room can be reached from that of every other
    /// over floor, and the player starts in a floor tile.
    pub fn new_from_seed(seed: &str) -> (dungeon: Dungeon)
        ensures
            dungeon@ == generated(seed.spec_bytes()),
            drawn_layout(seed.spec_bytes()).well_drawn(),
            dungeon@.grid.wf(),
            dungeon@.grid.width == drawn_layout(seed.spec_bytes()).width,
            dungeon@.grid.height == drawn_layout(seed.spec_bytes()).height,
            all_joined(dungeon@.grid, drawn_layout(seed.spec_bytes()).rooms),
            dungeon@.spawn_on_floor(),
    {
        let layout = Layout::draw(seed);
        Dungeon::build(&layout)
    }

    /// The grid of the dungeon.
    pub fn grid(&self) -> (grid: &Grid)
        ensures
            grid@ == self@.grid,
    {
        &self.grid
    }

    /// The point at which the player starts, in half tiles: twice its
    /// coordinates. The tile that holds it is floor.
    pub fn player_spawn(&self) -> (spawn: (u64, u64))
        ensures
            spawn.0 == self@.spawn.0,
            spawn.1 == self@.spawn.1,
            self@.spawn_on_floor(),
    {
        proof {
            use_type_invariant(self);
        }
        self.player_spawn
    }
}

} // verus!
