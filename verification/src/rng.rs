//! The seeded random stream that generation draws from.
//!
//! The stream is rand's ISAAC generator. Nothing here is proved of it: each
//! function below states what the generator's documentation and source show
//! of one of its operations, and the rest of the library is verified against
//! those statements. A draw is a function of the generator's state and of the
//! arguments of the call, and of nothing else; the uninterpreted functions
//! give those results names, so that what was drawn from equal seeds can be
//! shown equal without saying which numbers ISAAC yields.

use rand::distributions::{IndependentSample, Weighted, WeightedChoice};
use rand::{IsaacRng, Rng, SeedableRng};
use vstd::prelude::*;

verus! {

/// rand's ISAAC generator, carried as a value that cannot be looked into.
#[verifier::external_type_specification]
#[verifier::external_body]
pub struct ExIsaacRng(IsaacRng);

/// The words that a generator holds: its whole state.
pub uninterp spec fn rng_state(rng: IsaacRng) -> Seq<u32>;

/// The state of a generator that was just seeded with `seed`.
pub uninterp spec fn seeded_state(seed: Seq<u32>) -> Seq<u32>;

/// What a generator in `state` draws from `[low, high)` as a 32-bit number,
/// and the state it is left in.
pub uninterp spec fn range_draw(state: Seq<u32>, low: nat, high: nat) -> (nat, Seq<u32>);

/// What a generator in `state` draws from `[low, high)` as a pointer-sized
/// number, where such a number has `bits` bits, and the state it is left in.
pub uninterp spec fn count_draw(state: Seq<u32>, bits: nat, low: nat, high: nat) -> (
    nat,
    Seq<u32>,
);


/// The coin that a generator in `state` flips, and the state it is left in.
pub uninterp spec fn coin_draw(state: Seq<u32>) -> (bool, Seq<u32>);


/// The number of bits of a pointer-sized number on the machine at hand.
pub open spec fn word_bits() -> nat {
    usize::BITS as nat
}

/// The sum of `weights`.
pub open spec fn total_weight(weights: Seq<u32>) -> nat
    decreases weights.len(),
{
    if weights.len() == 0 {
        0
    } else {
        total_weight(weights.drop_last()) + weights.last() as nat
    }
}

/// The first position of `weights` at which the running total exceeds
/// `sample`; their number where none does.
pub open spec fn position_over(weights: Seq<u32>, sample: int) -> nat
    decreases weights.len(),
{
    if weights.len() == 0 || sample < weights.first() {
        0
    } else {
        1 + position_over(weights.drop_first(), sample - weights.first())
    }
}

/// The position that a generator in `state` picks among `weights`, and the
/// state it is left in: it draws a number below the sum of the weights, and
/// picks the first position at which the running total exceeds the number.
pub open spec fn weighted_draw(state: Seq<u32>, weights: Seq<u32>) -> (nat, Seq<u32>) {
    let sample = range_draw(state, 0, total_weight(weights));
    (position_over(weights, sample.0 as int), sample.1)
}

/// The position that a generator in `state` picks in a slice of `len` items,
/// `len` positive, where a pointer-sized number has `bits` bits, and the
/// state it is left in: a pointer-sized number below `len`.
pub open spec fn choice_draw(state: Seq<u32>, bits: nat, len: nat) -> (nat, Seq<u32>) {
    count_draw(state, bits, 0, len)
}

/// `SeedableRng::from_seed` for `IsaacRng`: a generator whose state is a
/// function of the seed words alone, so that generators made from equal seeds
/// yield equal streams.
#[verifier::external_body]
pub(crate) fn from_seed(seed: &Vec<u32>) -> (rng: IsaacRng)
    ensures
        rng_state(rng) == seeded_state(seed@),
{
    IsaacRng::from_seed(seed.as_slice())
}

/// `Rng::gen_range` on `u32`: a number in `[low, high)`. It and the state
/// that the generator is left in are functions of the state before and of the
/// bounds. The call panics unless `low < high`.
#[verifier::external_body]
pub(crate) fn range(rng: &mut IsaacRng, low: u32, high: u32) -> (drawn: u32)
    requires
        low < high,
    ensures
        low <= drawn < high,
        drawn == range_draw(rng_state(*old(rng)), low as nat, high as nat).0,
        rng_state(*final(rng)) == range_draw(rng_state(*old(rng)), low as nat, high as nat).1,
{
    rng.gen_range(low, high)
}

/// `Rng::gen_range` on `usize`: a number in `[low, high)`. It and the state
/// that the generator is left in are functions of the state before, of the
/// bounds and of the width of `usize`, which decides how many words the
/// generator spends. The call panics unless `low < high`.
#[verifier::external_body]
pub(crate) fn count(rng: &mut IsaacRng, low: usize, high: usize) -> (drawn: usize)
    requires
        low < high,
    ensures
        low <= drawn < high,
        drawn == count_draw(rng_state(*old(rng)), word_bits(), low as nat, high as nat).0,
        rng_state(*final(rng)) == count_draw(
            rng_state(*old(rng)),
            word_bits(),
            low as nat,
            high as nat,
        ).1,
{
    rng.gen_range(low, high)
}

/// `WeightedChoice::new` and its `ind_sample`, on items that are the
/// positions of their weights. The sampler draws a `u32` below the sum of the
/// weights, as `Rng::gen_range` does, and returns the first item at which the
/// running total exceeds it: a position whose weight is not zero. The
/// constructor panics where there is no weight, where all are zero, and where
/// their sum does not fit in a `u32`.
#[verifier::external_body]
pub(crate) fn weighted(rng: &mut IsaacRng, weights: &Vec<u32>) -> (drawn: usize)
    requires
        weights@.len() > 0,
        0 < total_weight(weights@) <= u32::MAX,
    ensures
        drawn < weights@.len(),
        weights@[drawn as int] > 0,
        drawn == position_over(
            weights@,
            range_draw(rng_state(*old(rng)), 0, total_weight(weights@)).0 as int,
        ),
        rng_state(*final(rng)) == range_draw(rng_state(*old(rng)), 0, total_weight(weights@)).1,
{
    let mut items: Vec<Weighted<usize>> = weights
        .iter()
        .enumerate()
        .map(|(item, weight)| Weighted { weight: *weight, item })
        .collect();
    WeightedChoice::new(&mut items).ind_sample(rng)
}

/// `Rng::gen` on `bool`: a coin. It and the state that the generator is left
/// in are functions of the state before.
#[verifier::external_body]
pub(crate) fn coin(rng: &mut IsaacRng) -> (heads: bool)
    ensures
        heads == coin_draw(rng_state(*old(rng))).0,
        rng_state(*final(rng)) == coin_draw(rng_state(*old(rng))).1,
{
    rng.gen::<bool>()
}

/// `Rng::choose`: one of `items`, or `None` where there is none, in which
/// case the generator is left as it was. Otherwise it is the item at the
/// position that `Rng::gen_range` on `usize` draws below the number of items.
#[verifier::external_body]
pub(crate) fn pick<T: Copy>(rng: &mut IsaacRng, items: &Vec<T>) -> (picked: Option<T>)
    ensures
        picked is Some <==> items@.len() > 0,
        picked is Some ==> count_draw(rng_state(*old(rng)), word_bits(), 0, items@.len()).0
            < items@.len(),
        picked matches Some(item) ==> item == items@[count_draw(
            rng_state(*old(rng)),
            word_bits(),
            0,
            items@.len(),
        ).0 as int],
        rng_state(*final(rng)) == if items@.len() > 0 {
            count_draw(rng_state(*old(rng)), word_bits(), 0, items@.len()).1
        } else {
            rng_state(*old(rng))
        },
{
    rng.choose(items.as_slice()).copied()
}

} // verus!
