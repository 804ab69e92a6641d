//! The tunables of generation: how large dungeons and rooms are, how often
//! each size is picked, and how many rooms are tried and kept.

use crate::rng::total_weight;
use vstd::prelude::*;

verus! {

/// How large a dungeon is.
#[derive(Debug, Clone, Copy, PartialEq, Eq, Structural)]
pub enum DungeonSize {
    Small,
    Med,
    Large,
}

/// How large a room is.
#[derive(Debug, Clone, Copy, PartialEq, Eq, Structural)]
pub enum RoomSize {
    Small,
    Med,
    Large,
}

/// The fewest and, excluded, the most attempts to place a room.
pub const ATTEMPTS: (u32, u32) = (20, 41);

/// The weights of the three sizes, smallest first, as a sequence.
pub open spec fn weights_of(small: u32, med: u32, large: u32) -> Seq<u32> {
    seq![small, med, large]
}

/// The weights with which a dungeon's size is picked, smallest size first.
pub open spec fn dungeon_weights() -> Seq<u32> {
    weights_of(300, 250, 100)
}

/// The sum of three weights is the sum of the three numbers.
pub proof fn lemma_total_of_three(small: u32, med: u32, large: u32)
    ensures
        total_weight(weights_of(small, med, large)) == small + med + large,
{
    let three = weights_of(small, med, large);
    let two = seq![small, med];
    let one = seq![small];
    assert(three.drop_last() =~= two);
    assert(two.drop_last() =~= one);
    assert(one.drop_last() =~= Seq::<u32>::empty());
    reveal_with_fuel(total_weight, 4);
}

impl DungeonSize {
    /// The size at `position`, counting from the smallest; what lies past the
    /// last is the last.
    pub open spec fn at(position: nat) -> DungeonSize {
        if position == 0 {
            DungeonSize::Small
        } else if position == 1 {
            DungeonSize::Med
        } else {
            DungeonSize::Large
        }
    }

    /// The range that width and height are drawn from: the first bound
    /// included, the second not.
    pub open spec fn extent(self) -> (u32, u32) {
        match self {
            DungeonSize::Small => (50, 81),
            DungeonSize::Med => (80, 121),
            DungeonSize::Large => (120, 151),
        }
    }

    /// Whether `side` can be the width or height of a dungeon of this size.
    pub open spec fn admits(self, side: int) -> bool {
        self.extent().0 <= side < self.extent().1
    }

    /// The range that the number of rooms to keep is drawn from: the first
    /// bound included, the second not.
    pub open spec fn room_limit(self) -> (usize, usize) {
        match self {
            DungeonSize::Small => (7, 11),
            DungeonSize::Med => (10, 21),
            DungeonSize::Large => (20, 40),
        }
    }

    /// The weights with which the size of a room is picked in a dungeon of
    /// this size, smallest room first.
    pub open spec fn room_weights(self) -> Seq<u32> {
        match self {
            DungeonSize::Small => weights_of(100, 200, 0),
            DungeonSize::Med => weights_of(100, 250, 50),
            DungeonSize::Large => weights_of(100, 250, 100),
        }
    }

    /// The size at `position`, counting from the smallest.
    pub fn from_position(position: usize) -> (size: DungeonSize)
        ensures
            size == DungeonSize::at(position as nat),
    {
        if position == 0 {
            DungeonSize::Small
        } else if position == 1 {
            DungeonSize::Med
        } else {
            DungeonSize::Large
        }
    }

    /// The range that width and height are drawn from.
    pub fn bounds(self) -> (range: (u32, u32))
        ensures
            range == self.extent(),
            0 < range.0 < range.1,
    {
        match self {
            DungeonSize::Small => (50, 81),
            DungeonSize::Med => (80, 121),
            DungeonSize::Large => (120, 151),
        }
    }

    /// The range that the number of rooms to keep is drawn from.
    pub fn room_bounds(self) -> (range: (usize, usize))
        ensures
            range == self.room_limit(),
            0 < range.0 < range.1,
    {
        match self {
            DungeonSize::Small => (7, 11),
            DungeonSize::Med => (10, 21),
            DungeonSize::Large => (20, 40),
        }
    }

    /// The weights with which the size of a room is picked in a dungeon of
    /// this size. They can be drawn from: their sum is positive and small.
    pub fn room_size_weights(self) -> (weights: Vec<u32>)
        ensures
            weights@ == self.room_weights(),
            0 < total_weight(weights@) <= u32::MAX,
    {
        let weights = match self {
            DungeonSize::Small => vec![100, 200, 0],
            DungeonSize::Med => vec![100, 250, 50],
            DungeonSize::Large => vec![100, 250, 100],
        };
        proof {
            assert(weights@ =~= weights_of(weights@[0], weights@[1], weights@[2]));
            lemma_total_of_three(weights@[0], weights@[1], weights@[2]);
        }
        weights
    }

    /// The weights with which a dungeon's size is picked. They can be drawn
    /// from: their sum is positive and small.
    pub fn size_weights() -> (weights: Vec<u32>)
        ensures
            weights@ == dungeon_weights(),
            0 < total_weight(weights@) <= u32::MAX,
    {
        let weights = vec![300, 250, 100];
        proof {
            assert(weights@ =~= weights_of(300, 250, 100));
            lemma_total_of_three(300, 250, 100);
        }
        weights
    }
}

impl RoomSize {
    /// The size at `position`, counting from the smallest; what lies past the
    /// last is the last.
    pub open spec fn at(position: nat) -> RoomSize {
        if position == 0 {
            RoomSize::Small
        } else if position == 1 {
            RoomSize::Med
        } else {
            RoomSize::Large
        }
    }

    /// The range that a room's width and height are drawn from: the first
    /// bound included, the second not.
    pub open spec fn extent(self) -> (u32, u32) {
        match self {
            RoomSize::Small => (5, 11),
            RoomSize::Med => (10, 15),
            RoomSize::Large => (15, 21),
        }
    }

    /// The size at `position`, counting from the smallest.
    pub fn from_position(position: usize) -> (size: RoomSize)
        ensures
            size == RoomSize::at(position as nat),
    {
        if position == 0 {
            RoomSize::Small
        } else if position == 1 {
            RoomSize::Med
        } else {
            RoomSize::Large
        }
    }

    /// The range that a room's width and height are drawn from.
    pub fn bounds(self) -> (range: (u32, u32))
        ensures
            range == self.extent(),
            5 <= range.0 < range.1 <= 21,
    {
        match self {
            RoomSize::Small => (5, 11),
            RoomSize::Med => (10, 15),
            RoomSize::Large => (15, 21),
        }
    }
}

} // verus!
