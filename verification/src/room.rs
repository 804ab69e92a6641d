//! Rooms: the rectangles that generation places and carves.

use vstd::prelude::*;

verus! {

/// A rectangle of tiles with its top-left corner at `(x, y)`, `w` tiles wide
/// and `h` tiles high. It covers the columns `x1() .. x2()` and the rows
/// `y1() .. y2()`, the upper bounds excluded.
#[derive(Debug, Clone, Copy, PartialEq, Eq, Structural)]
pub struct Room {
    pub x: u32,
    pub y: u32,
    pub w: u32,
    pub h: u32,
}

impl Room {
    /// The first column of the room.
    pub open spec fn left(self) -> int {
        self.x as int
    }

    /// The column just past the room.
    pub open spec fn right(self) -> int {
        self.x + self.w
    }

    /// The first row of the room.
    pub open spec fn top(self) -> int {
        self.y as int
    }

    /// The row just past the room.
    pub open spec fn bottom(self) -> int {
        self.y + self.h
    }

    /// Whether the tile `(x, y)` belongs to the room.
    pub open spec fn covers(self, x: int, y: int) -> bool {
        self.left() <= x < self.right() && self.top() <= y < self.bottom()
    }

    /// Whether the bounding boxes of the two rooms overlap on both axes, the
    /// bounds included: rooms that only share an edge meet too, so that rooms
    /// which do not meet keep a wall between them.
    pub open spec fn meets(self, other: Room) -> bool {
        &&& self.left() <= other.right()
        &&& self.right() >= other.left()
        &&& self.top() <= other.bottom()
        &&& self.bottom() >= other.top()
    }

    /// The column of the tile that holds the room's centre.
    pub open spec fn middle_x(self) -> int {
        self.x + self.w / 2
    }

    /// The row of the tile that holds the room's centre.
    pub open spec fn middle_y(self) -> int {
        self.y + self.h / 2
    }

    /// Whether the room is not empty and lies inside a grid of `width` by
    /// `height` tiles.
    pub open spec fn fits(self, width: int, height: int) -> bool {
        &&& self.w >= 1
        &&& self.h >= 1
        &&& self.right() <= width
        &&& self.bottom() <= height
    }

    pub fn new(x: u32, y: u32, w: u32, h: u32) -> (room: Room)
        ensures
            room == (Room { x, y, w, h }),
    {
        Room { x, y, w, h }
    }

    pub fn x1(&self) -> (x1: u32)
        ensures
            x1 == self.left(),
    {
        self.x
    }

    pub fn x2(&self) -> (x2: u32)
        requires
            self.right() <= u32::MAX,
        ensures
            x2 == self.right(),
    {
        self.x + self.w
    }

    pub fn y1(&self) -> (y1: u32)
        ensures
            y1 == self.top(),
    {
        self.y
    }

    pub fn y2(&self) -> (y2: u32)
        requires
            self.bottom() <= u32::MAX,
        ensures
            y2 == self.bottom(),
    {
        self.y + self.h
    }

    /// The column of the tile that holds the room's centre.
    pub fn center_x(&self) -> (column: u32)
        requires
            self.middle_x() <= u32::MAX,
        ensures
            column == self.middle_x(),
    {
        self.x + self.w / 2
    }

    /// The row of the tile that holds the room's centre.
    pub fn center_y(&self) -> (row: u32)
        requires
            self.middle_y() <= u32::MAX,
        ensures
            row == self.middle_y(),
    {
        self.y + self.h / 2
    }

    /// The centre of the room in half tiles: twice its coordinates, which are
    /// whole or fall on the middle of a tile.
    pub fn center(&self) -> (centre: (u64, u64))
        ensures
            centre.0 == 2 * self.x + self.w,
            centre.1 == 2 * self.y + self.h,
    {
        (2 * (self.x as u64) + self.w as u64, 2 * (self.y as u64) + self.h as u64)
    }

    /// Whether the two rooms meet: their bounding boxes overlap on both axes,
    /// edges included.
    pub fn intersects(&self, other: &Room) -> (meet: bool)
        ensures
            meet == self.meets(*other),
    {
        let (x1, x2) = (self.x as u64, self.x as u64 + self.w as u64);
        let (y1, y2) = (self.y as u64, self.y as u64 + self.h as u64);
        let (ox1, ox2) = (other.x as u64, other.x as u64 + other.w as u64);
        let (oy1, oy2) = (other.y as u64, other.y as u64 + other.h as u64);
        x1 <= ox2 && x2 >= ox1 && y1 <= oy2 && y2 >= oy1
    }
}

/// Whether `room` meets one of `rooms`.
pub open spec fn crowded(rooms: Seq<Room>, room: Room) -> bool {
    exists|k: int| 0 <= k < rooms.len() && (#[trigger] rooms[k]).meets(room)
}

/// Whether no two of `rooms` meet.
pub open spec fn apart(rooms: Seq<Room>) -> bool {
    forall|i: int, j: int|
        0 <= i < j < rooms.len() ==> !(#[trigger] rooms[i]).meets(#[trigger] rooms[j])
}

/// Whether `room` meets one of `rooms`.
pub fn meets_any(rooms: &Vec<Room>, room: &Room) -> (met: bool)
    ensures
        met == crowded(rooms@, *room),
{
    let mut k: usize = 0;
    while k < rooms.len()
        invariant
            k <= rooms.len(),
            forall|j: int| 0 <= j < k ==> !(#[trigger] rooms@[j]).meets(*room),
        decreases rooms.len() - k,
    {
        if rooms[k].intersects(room) {
            return true;
        }
        k += 1;
    }
    false
}

/// Rooms that do not meet share no tile, and no tile of one touches a tile
/// of the other: a wall lies between them.
pub proof fn lemma_apart_rooms_keep_a_wall(a: Room, b: Room, x: int, y: int, u: int, v: int)
    requires
        !a.meets(b),
        a.covers(x, y),
        b.covers(u, v),
    ensures
        (x - u > 1 || u - x > 1) || (y - v > 1 || v - y > 1),
{
}

/// A room joined to rooms that are apart and that it does not meet leaves
/// them apart.
pub proof fn lemma_apart_push(rooms: Seq<Room>, room: Room)
    requires
        apart(rooms),
        !crowded(rooms, room),
    ensures
        apart(rooms.push(room)),
{
    let next = rooms.push(room);
    assert forall|i: int, j: int| 0 <= i < j < next.len() implies !(#[trigger] next[i]).meets(
        #[trigger] next[j],
    ) by {
        if j < rooms.len() {
            assert(!rooms[i].meets(rooms[j]));
        } else {
            assert(!rooms[i].meets(room));
        }
    }
}

} // verus!
