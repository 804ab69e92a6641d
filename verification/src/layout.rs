//! The layout of a dungeon: everything that is decided by chance.
//!
//! A [`Layout`] holds the extent of the grid, the rooms that were placed, in
//! the order in which they were placed, the way in which each corridor
//! turns, and the room that the player starts in. [`Layout::draw`] makes the
//! decisions from a seed; what it draws is a function of the seed's bytes,
//! [`drawn_layout`].

use crate::config::{dungeon_weights, DungeonSize, RoomSize, ATTEMPTS};
use crate::rng;
use crate::rng::{
    choice_draw, coin_draw, count_draw, range_draw, rng_state, seeded_state, weighted_draw,
    word_bits,
};
use crate::room::{apart, crowded, lemma_apart_push, meets_any, Room};
use rand::IsaacRng;
use vstd::prelude::*;
use vstd::string::StringSliceAdditionalSpecFns;

verus! {

/// The mathematical content of a [`Layout`].
pub struct LayoutView {
    pub width: nat,
    pub height: nat,
    pub rooms: Seq<Room>,
    pub turns: Seq<bool>,
    pub spawn: Room,
}

impl LayoutView {
    /// Whether a dungeon can be built from the layout: the grid is not empty
    /// and can be stored, there is a room, every room lies inside the grid,
    /// there is one turn for each room after the first, and the player starts
    /// in one of the rooms.
    pub open spec fn valid(self) -> bool {
        &&& 0 < self.width <= u32::MAX
        &&& 0 < self.height <= u32::MAX
        &&& self.width * self.height <= usize::MAX
        &&& self.rooms.len() >= 1
        &&& forall|i: int|
            0 <= i < self.rooms.len() ==> (#[trigger] self.rooms[i]).fits(
                self.width as int,
                self.height as int,
            )
        &&& self.turns.len() + 1 == self.rooms.len()
        &&& self.rooms.contains(self.spawn)
    }

    /// What holds of a layout however the draws fall: a dungeon can be built
    /// from it; both sides of the grid lie within the range of one size of
    /// dungeon, and so between 50 and 150 tiles; at most 39 rooms are placed;
    /// no two of them meet; and each has sides of 5 to 20 tiles and ends
    /// before the last column and the last row.
    pub open spec fn well_drawn(self) -> bool {
        &&& self.valid()
        &&& exists|size: DungeonSize|
            #![trigger size.admits(self.width as int)]
            size.admits(self.width as int) && size.admits(self.height as int)
        &&& 50 <= self.width <= 150
        &&& 50 <= self.height <= 150
        &&& self.rooms.len() <= 39
        &&& apart(self.rooms)
        &&& forall|i: int|
            0 <= i < self.rooms.len() ==> proposable(
                #[trigger] self.rooms[i],
                self.width as int,
                self.height as int,
            )
    }
}

/// What stands against a layout, in the order in which it is looked for.
#[derive(Debug, Clone, Copy, PartialEq, Eq, Structural)]
pub enum LayoutError {
    /// The grid has no column or no row.
    EmptyGrid,
    /// The grid has more tiles than can be stored.
    GridTooLarge,
    /// There is no room, so the player can start nowhere.
    NoRooms,
    /// A room is empty or does not lie inside the grid.
    RoomOutside,
    /// There is not one turn for each room after the first.
    TurnsMismatch,
    /// The player is to start in a room that is not there.
    NoSuchSpawn,
}

/// What stands against a layout of the given parts, if anything does.
pub open spec fn fault(width: nat, height: nat, rooms: Seq<Room>, turns: Seq<bool>, spawn: nat) -> Option<
    LayoutError,
> {
    if width == 0 || height == 0 {
        Some(LayoutError::EmptyGrid)
    } else if width * height > usize::MAX {
        Some(LayoutError::GridTooLarge)
    } else if rooms.len() == 0 {
        Some(LayoutError::NoRooms)
    } else if exists|i: int|
        0 <= i < rooms.len() && !(#[trigger] rooms[i]).fits(width as int, height as int) {
        Some(LayoutError::RoomOutside)
    } else if turns.len() + 1 != rooms.len() {
        Some(LayoutError::TurnsMismatch)
    } else if spawn >= rooms.len() {
        Some(LayoutError::NoSuchSpawn)
    } else {
        None
    }
}

/// What is drawn first: the size of the dungeon, its extent, the number of
/// attempts to place a room, and the number of rooms at which placing stops.
pub struct Frame {
    pub size: DungeonSize,
    pub width: nat,
    pub height: nat,
    pub attempts: nat,
    pub limit: nat,
}

/// The words that seed the generator: the bytes of the seed, each widened.
pub open spec fn seed_words(bytes: Seq<u8>) -> Seq<u32> {
    Seq::new(bytes.len(), |i: int| bytes[i] as u32)
}

/// The frame that a generator in `state` draws, and the state it is left in.
pub open spec fn drawn_frame(state: Seq<u32>) -> (Frame, Seq<u32>) {
    let size = weighted_draw(state, dungeon_weights());
    let side = DungeonSize::at(size.0).extent();
    let width = range_draw(size.1, side.0 as nat, side.1 as nat);
    let height = range_draw(width.1, side.0 as nat, side.1 as nat);
    let attempts = range_draw(height.1, ATTEMPTS.0 as nat, ATTEMPTS.1 as nat);
    let rooms = DungeonSize::at(size.0).room_limit();
    let limit = count_draw(attempts.1, word_bits(), rooms.0 as nat, rooms.1 as nat);
    (
        Frame {
            size: DungeonSize::at(size.0),
            width: width.0,
            height: height.0,
            attempts: attempts.0,
            limit: limit.0,
        },
        limit.1,
    )
}

/// Whether `room` can be proposed for a grid of the given extent: its sides
/// are between 5 and 20 tiles long, and it ends before the last column and
/// the last row.
pub open spec fn proposable(room: Room, width: int, height: int) -> bool {
    &&& 5 <= room.w <= 20
    &&& 5 <= room.h <= 20
    &&& room.right() < width
    &&& room.bottom() < height
}

/// The room that a generator in `state` proposes for a dungeon of the given
/// size and extent, and the state it is left in: first the size of the room,
/// then its width and height, then its corner, such that it ends before the
/// last column and row.
pub open spec fn drawn_room(state: Seq<u32>, size: DungeonSize, width: nat, height: nat) -> (
    Room,
    Seq<u32>,
) {
    let kind = weighted_draw(state, size.room_weights());
    let side = RoomSize::at(kind.0).extent();
    let w = range_draw(kind.1, side.0 as nat, side.1 as nat);
    let h = range_draw(w.1, side.0 as nat, side.1 as nat);
    let x = range_draw(h.1, 0, (width - w.0) as nat);
    let y = range_draw(x.1, 0, (height - h.0) as nat);
    (Room { x: x.0 as u32, y: y.0 as u32, w: w.0 as u32, h: h.0 as u32 }, y.1)
}

/// The rooms that are kept when a generator in `state` makes `attempts`
/// proposals beside the rooms already kept, and the state it is left in. A
/// proposal that meets a kept room is dropped; placing stops early once
/// `limit` rooms are kept.
pub open spec fn placed(
    state: Seq<u32>,
    size: DungeonSize,
    width: nat,
    height: nat,
    attempts: nat,
    limit: nat,
    rooms: Seq<Room>,
) -> (Seq<Room>, Seq<u32>)
    decreases attempts,
{
    if attempts == 0 {
        (rooms, state)
    } else {
        let tried = drawn_room(state, size, width, height);
        if crowded(rooms, tried.0) {
            placed(tried.1, size, width, height, (attempts - 1) as nat, limit, rooms)
        } else if rooms.len() + 1 == limit {
            (rooms.push(tried.0), tried.1)
        } else {
            placed(
                tried.1,
                size,
                width,
                height,
                (attempts - 1) as nat,
                limit,
                rooms.push(tried.0),
            )
        }
    }
}

/// The state of a generator that was in `state` and has flipped `n` coins.
pub open spec fn after_coins(state: Seq<u32>, n: nat) -> Seq<u32>
    decreases n,
{
    if n == 0 {
        state
    } else {
        coin_draw(after_coins(state, (n - 1) as nat)).1
    }
}

/// The `n` coins that a generator in `state` flips, in order.
pub open spec fn drawn_turns(state: Seq<u32>, n: nat) -> Seq<bool> {
    Seq::new(n, |k: int| coin_draw(after_coins(state, k as nat)).0)
}

/// The layout that is drawn from a seed with the given bytes.
pub open spec fn drawn_layout(bytes: Seq<u8>) -> LayoutView {
    let frame = drawn_frame(seeded_state(seed_words(bytes)));
    let rooms = placed(
        frame.1,
        frame.0.size,
        frame.0.width,
        frame.0.height,
        frame.0.attempts,
        frame.0.limit,
        Seq::empty(),
    );
    let corridors = (rooms.0.len() - 1) as nat;
    let spawn = choice_draw(after_coins(rooms.1, corridors), word_bits(), rooms.0.len());
    LayoutView {
        width: frame.0.width,
        height: frame.0.height,
        rooms: rooms.0,
        turns: drawn_turns(rooms.1, corridors),
        spawn: rooms.0[spawn.0 as int],
    }
}

/// However the proposals fall, rooms that are kept beside rooms that are
/// apart are apart: no two rooms of a drawn layout meet.
pub proof fn lemma_placed_rooms_are_apart(
    state: Seq<u32>,
    size: DungeonSize,
    width: nat,
    height: nat,
    attempts: nat,
    limit: nat,
    rooms: Seq<Room>,
)
    requires
        apart(rooms),
    ensures
        apart(placed(state, size, width, height, attempts, limit, rooms).0),
    decreases attempts,
{
    if attempts > 0 {
        let tried = drawn_room(state, size, width, height);
        let fewer = (attempts - 1) as nat;
        if crowded(rooms, tried.0) {
            lemma_placed_rooms_are_apart(tried.1, size, width, height, fewer, limit, rooms);
        } else {
            lemma_apart_push(rooms, tried.0);
            if rooms.len() + 1 != limit {
                lemma_placed_rooms_are_apart(
                    tried.1,
                    size,
                    width,
                    height,
                    fewer,
                    limit,
                    rooms.push(tried.0),
                );
            }
        }
    }
}

/// Whatever the seed, no two rooms of the layout drawn from it meet.
pub proof fn lemma_drawn_rooms_are_apart(bytes: Seq<u8>)
    ensures
        apart(drawn_layout(bytes).rooms),
{
    let frame = drawn_frame(seeded_state(seed_words(bytes)));
    lemma_placed_rooms_are_apart(
        frame.1,
        frame.0.size,
        frame.0.width,
        frame.0.height,
        frame.0.attempts,
        frame.0.limit,
        Seq::empty(),
    );
}

/// The words that seed the generator: the bytes of `seed`, each widened.
pub fn seed_to_words(seed: &str) -> (words: Vec<u32>)
    ensures
        words@ == seed_words(seed.spec_bytes()),
{
    let bytes = seed.as_bytes();
    let mut words: Vec<u32> = Vec::new();
    let mut i: usize = 0;
    while i < bytes.len()
        invariant
            i <= bytes.len(),
            bytes@ == seed.spec_bytes(),
            words@ == seed_words(bytes@.take(i as int)),
        decreases bytes.len() - i,
    {
        words.push(bytes[i] as u32);
        i += 1;
        assert(words@ =~= seed_words(bytes@.take(i as int)));
    }
    assert(bytes@.take(i as int) =~= bytes@);
    words
}

/// Draws the frame of a dungeon.
fn draw_frame(rng: &mut IsaacRng) -> (frame: (DungeonSize, u32, u32, u32, usize))
    ensures
        drawn_frame(rng_state(*old(rng))) == (
            Frame {
                size: frame.0,
                width: frame.1 as nat,
                height: frame.2 as nat,
                attempts: frame.3 as nat,
                limit: frame.4 as nat,
            },
            rng_state(*final(rng)),
        ),
        frame.0.admits(frame.1 as int),
        frame.0.admits(frame.2 as int),
        ATTEMPTS.0 <= frame.3 < ATTEMPTS.1,
        frame.0.room_limit().0 <= frame.4 < frame.0.room_limit().1,
{
    let weights = DungeonSize::size_weights();
    let size = DungeonSize::from_position(rng::weighted(rng, &weights));
    let side = size.bounds();
    let width = rng::range(rng, side.0, side.1);
    let height = rng::range(rng, side.0, side.1);
    let attempts = rng::range(rng, ATTEMPTS.0, ATTEMPTS.1);
    let rooms = size.room_bounds();
    let limit = rng::count(rng, rooms.0, rooms.1);
    (size, width, height, attempts, limit)
}

/// Draws a room for a dungeon of the given size and extent.
fn draw_room(rng: &mut IsaacRng, size: DungeonSize, width: u32, height: u32) -> (room: Room)
    requires
        width > 20,
        height > 20,
    ensures
        drawn_room(rng_state(*old(rng)), size, width as nat, height as nat) == (
            room,
            rng_state(*final(rng)),
        ),
        proposable(room, width as int, height as int),
{
    let weights = size.room_size_weights();
    let side = RoomSize::from_position(rng::weighted(rng, &weights)).bounds();
    let w = rng::range(rng, side.0, side.1);
    let h = rng::range(rng, side.0, side.1);
    let x = rng::range(rng, 0, width - w);
    let y = rng::range(rng, 0, height - h);
    Room::new(x, y, w, h)
}

/// Proposes `attempts` rooms and keeps those that meet no room kept before,
/// until `limit` rooms are kept.
fn place_rooms(
    rng: &mut IsaacRng,
    size: DungeonSize,
    width: u32,
    height: u32,
    attempts: u32,
    limit: usize,
) -> (rooms: Vec<Room>)
    requires
        width > 20,
        height > 20,
        attempts >= 1,
        limit >= 1,
    ensures
        placed(
            rng_state(*old(rng)),
            size,
            width as nat,
            height as nat,
            attempts as nat,
            limit as nat,
            Seq::empty(),
        ) == (rooms@, rng_state(*final(rng))),
        1 <= rooms@.len() <= limit,
        rooms@.len() <= attempts,
        apart(rooms@),
        forall|i: int|
            0 <= i < rooms@.len() ==> proposable(#[trigger] rooms@[i], width as int, height as int),
{
    let ghost start = rng_state(*rng);
    let ghost goal = placed(
        start,
        size,
        width as nat,
        height as nat,
        attempts as nat,
        limit as nat,
        Seq::empty(),
    );
    let mut rooms: Vec<Room> = Vec::new();
    let mut left: u32 = attempts;
    while left > 0
        invariant_except_break
            rooms@.len() < limit,
            placed(
                rng_state(*rng),
                size,
                width as nat,
                height as nat,
                left as nat,
                limit as nat,
                rooms@,
            ) == goal,
        invariant
            width > 20,
            height > 20,
            attempts >= 1,
            left <= attempts,
            rooms@.len() + left <= attempts,
            left < attempts ==> rooms@.len() >= 1,
            rooms@.len() <= limit,
            apart(rooms@),
            forall|i: int|
                0 <= i < rooms@.len() ==> proposable(
                    #[trigger] rooms@[i],
                    width as int,
                    height as int,
                ),
        ensures
            (rooms@, rng_state(*rng)) == goal,
            rooms@.len() >= 1,
        decreases left,
    {
        let room = draw_room(rng, size, width, height);
        left -= 1;
        if !meets_any(&rooms, &room) {
            proof {
                lemma_apart_push(rooms@, room);
            }
            rooms.push(room);
            if rooms.len() == limit {
                break;
            }
        }
    }
    rooms
}

/// Flips a coin for each of `n` corridors.
fn draw_turns(rng: &mut IsaacRng, n: usize) -> (turns: Vec<bool>)
    ensures
        turns@ == drawn_turns(rng_state(*old(rng)), n as nat),
        rng_state(*final(rng)) == after_coins(rng_state(*old(rng)), n as nat),
{
    let ghost start = rng_state(*rng);
    let mut turns: Vec<bool> = Vec::new();
    let mut k: usize = 0;
    while k < n
        invariant
            k <= n,
            turns@ == drawn_turns(start, k as nat),
            rng_state(*rng) == after_coins(start, k as nat),
        decreases n - k,
    {
        let turn = rng::coin(rng);
        turns.push(turn);
        k += 1;
        assert(turns@ =~= drawn_turns(start, k as nat));
    }
    turns
}

/// The decisions from which a dungeon is built: the extent of its grid, the
/// rooms in the order in which they were placed, for each room after the
/// first whether the corridor from the room before starts along the row, and
/// the room that the player starts in.
#[derive(Debug)]
pub struct Layout {
    width: u32,
    height: u32,
    rooms: Vec<Room>,
    turns: Vec<bool>,
    spawn: Room,
}

impl View for Layout {
    type V = LayoutView;

    closed spec fn view(&self) -> LayoutView {
        LayoutView {
            width: self.width as nat,
            height: self.height as nat,
            rooms: self.rooms@,
            turns: self.turns@,
            spawn: self.spawn,
        }
    }
}

impl Layout {
    /// A dungeon can be built from every layout.
    #[verifier::type_invariant]
    pub open spec fn well_formed(self) -> bool {
        self@.valid()
    }

    /// The layout that is drawn from `seed`. It is a function of the bytes of
    /// the seed. Whatever is drawn, the grid is at least 50 and at most 150
    /// tiles wide and high, both sides within the range of one size of
    /// dungeon, and between 1 and 39 rooms are placed, no two of which meet,
    /// each with sides of 5 to 20 tiles and clear of the last column and row.
    pub fn draw(seed: &str) -> (layout: Layout)
        ensures
            layout@ == drawn_layout(seed.spec_bytes()),
            layout@.well_drawn(),
    {
        let words = seed_to_words(seed);
        let mut rng = rng::from_seed(&words);
        let (size, width, height, attempts, limit) = draw_frame(&mut rng);
        let rooms = place_rooms(&mut rng, size, width, height, attempts, limit);
        let turns = draw_turns(&mut rng, rooms.len() - 1);
        let spawn = match rng::pick(&mut rng, &rooms) {
            Some(room) => room,
            None => rooms[0],
        };
        assert(size.admits(width as int) && size.admits(height as int));
        assert(width * height <= usize::MAX) by (nonlinear_arith)
            requires
                0 < width <= 150,
                0 < height <= 150,
                usize::MAX >= 0xffff_ffff,
        ;
        Layout { width, height, rooms, turns, spawn }
    }

    /// The layout with the given extent, rooms and turns, in which the
    /// player starts in the room at position `spawn`, where a dungeon can be
    /// built from it; else what stands against it, the first of the faults
    /// in the order of [`LayoutError`].
    pub fn new(width: u32, height: u32, rooms: Vec<Room>, turns: Vec<bool>, spawn: usize) -> (layout:
        Result<Layout, LayoutError>)
        ensures
            layout matches Ok(made) ==> {
                &&& fault(width as nat, height as nat, rooms@, turns@, spawn as nat) is None
                &&& made@.valid()
                &&& made@ == (LayoutView {
                    width: width as nat,
                    height: height as nat,
                    rooms: rooms@,
                    turns: turns@,
                    spawn: rooms@[spawn as int],
                })
            },
            layout matches Err(error) ==> fault(
                width as nat,
                height as nat,
                rooms@,
                turns@,
                spawn as nat,
            ) == Some(error),
    {
        if width == 0 || height == 0 {
            return Err(LayoutError::EmptyGrid);
        }
        assert(width * height <= u32::MAX * u32::MAX) by (nonlinear_arith)
            requires
                width <= u32::MAX,
                height <= u32::MAX,
        ;
        if width as u64 * height as u64 > usize::MAX as u64 {
            return Err(LayoutError::GridTooLarge);
        }
        if rooms.len() == 0 {
            return Err(LayoutError::NoRooms);
        }
        let mut i: usize = 0;
        while i < rooms.len()
            invariant
                i <= rooms.len(),
                width > 0,
                height > 0,
                width * height <= usize::MAX,
                forall|k: int|
                    0 <= k < i ==> (#[trigger] rooms@[k]).fits(width as int, height as int),
            decreases rooms.len() - i,
        {
            let room = rooms[i];
            if room.w == 0 || room.h == 0 || room.x as u64 + room.w as u64 > width as u64
                || room.y as u64 + room.h as u64 > height as u64 {
                assert(!rooms@[i as int].fits(width as int, height as int));
                return Err(LayoutError::RoomOutside);
            }
            i += 1;
        }
        if turns.len() != rooms.len() - 1 {
            return Err(LayoutError::TurnsMismatch);
        }
        if spawn >= rooms.len() {
            return Err(LayoutError::NoSuchSpawn);
        }
        let chosen = rooms[spawn];
        Ok(Layout { width, height, rooms, turns, spawn: chosen })
    }

    /// The number of columns of the grid.
    pub fn width(&self) -> (width: u32)
        ensures
            width == self@.width,
    {
        self.width
    }

    /// The number of rows of the grid.
    pub fn height(&self) -> (height: u32)
        ensures
            height == self@.height,
    {
        self.height
    }

    /// The rooms, in the order in which they were placed.
    pub fn rooms(&self) -> (rooms: &Vec<Room>)
        ensures
            rooms@ == self@.rooms,
    {
        &self.rooms
    }

    /// For each room after the first, whether the corridor from the room
    /// before starts along the row.
    pub fn turns(&self) -> (turns: &Vec<bool>)
        ensures
            turns@ == self@.turns,
    {
        &self.turns
    }

    /// The room that the player starts in.
    pub fn spawn(&self) -> (spawn: Room)
        ensures
            spawn == self@.spawn,
    {
        self.spawn
    }
}

} // verus!
