//! Scoring: point totals of card pools (in half-point units), oudler
//! counts, the point threshold the taker must reach, the signed margin,
//! and the bid multiplier.

use vstd::prelude::*;

use super::bid::Bids;
use super::card::{spec_half_points, spec_is_oudler, Card};

verus! {

/// Total point weight of a pool of cards, in half-point units.
pub open spec fn spec_total_half_points(cards: Seq<Card>) -> int
    decreases cards.len(),
{
    if cards.len() == 0 {
        0
    } else {
        spec_total_half_points(cards.drop_last()) + spec_half_points(cards.last())
    }
}

/// How many of the three oudlers a pool of cards holds.
pub open spec fn spec_oudler_count(cards: Seq<Card>) -> int
    decreases cards.len(),
{
    if cards.len() == 0 {
        0
    } else {
        spec_oudler_count(cards.drop_last()) + if spec_is_oudler(cards.last()) {
            1int
        } else {
            0int
        }
    }
}

pub proof fn lemma_total_half_points_bounds(cards: Seq<Card>)
    ensures
        0 <= spec_total_half_points(cards) <= 9 * cards.len(),
    decreases cards.len(),
{
    if cards.len() > 0 {
        lemma_total_half_points_bounds(cards.drop_last());
    }
}

pub proof fn lemma_oudler_count_bounds(cards: Seq<Card>)
    ensures
        0 <= spec_oudler_count(cards) <= cards.len(),
    decreases cards.len(),
{
    if cards.len() > 0 {
        lemma_oudler_count_bounds(cards.drop_last());
    }
}

/// Point totals are additive: the points of two pools together are the sum
/// of the points of each, whatever the pools hold.
pub proof fn lemma_points_additive(a: Seq<Card>, b: Seq<Card>)
    ensures
        spec_total_half_points(a + b) == spec_total_half_points(a) + spec_total_half_points(b),
        spec_oudler_count(a + b) == spec_oudler_count(a) + spec_oudler_count(b),
    decreases b.len(),
{
    if b.len() == 0 {
        assert(a + b =~= a);
    } else {
        lemma_points_additive(a, b.drop_last());
        assert((a + b).drop_last() =~= a + b.drop_last());
        assert((a + b).last() == b.last());
    }
}

pub fn compute_oudlers(cards: &[Card]) -> (n: usize)
    ensures
        n == spec_oudler_count(cards@),
{
    let mut n: usize = 0;
    let mut i: usize = 0;
    while i < cards.len()
        invariant
            0 <= i <= cards@.len(),
            0 <= n <= i,
            n == spec_oudler_count(cards@.subrange(0, i as int)),
        decreases cards@.len() - i,
    {
        if cards[i].is_oudler() {
            n = n + 1;
        }
        proof {
            assert(cards@.subrange(0, i + 1).drop_last() =~= cards@.subrange(0, i as int));
        }
        i = i + 1;
    }
    proof {
        assert(cards@.subrange(0, cards@.len() as int) =~= cards@);
    }
    n
}

/// Total point weight of a pool, in half-point units (the 78-card pack
/// totals 182, that is 91 points).
pub fn compute_points(cards: &[Card]) -> (p: u64)
    requires
        cards@.len() <= 0xFFFF_FFFF,
    ensures
        p == spec_total_half_points(cards@),
{
    let mut p: u64 = 0;
    let mut i: usize = 0;
    while i < cards.len()
        invariant
            0 <= i <= cards@.len(),
            cards@.len() <= 0xFFFF_FFFF,
            p == spec_total_half_points(cards@.subrange(0, i as int)),
            p <= 9 * i,
        decreases cards@.len() - i,
    {
        p = p + cards[i].half_points() as u64;
        proof {
            assert(cards@.subrange(0, i + 1).drop_last() =~= cards@.subrange(0, i as int));
        }
        i = i + 1;
    }
    proof {
        assert(cards@.subrange(0, cards@.len() as int) =~= cards@);
    }
    p
}

/// Point threshold (in half-point units) the taker must reach, by the
/// number of oudlers in the taker's won cards: 56, 51, 41 or 36 points.
pub open spec fn spec_needed_points(n_oudlers: int) -> int {
    if n_oudlers == 0 {
        112
    } else if n_oudlers == 1 {
        102
    } else if n_oudlers == 2 {
        82
    } else if n_oudlers == 3 {
        72
    } else {
        0
    }
}

pub fn get_needed_points(n_oudlers: usize) -> (p: u64)
    ensures
        p == spec_needed_points(n_oudlers as int),
{
    match n_oudlers {
        0 => 112,
        1 => 102,
        2 => 82,
        3 => 72,
        _ => 0,
    }
}

fn compute_needed_points(cards: &[Card]) -> (p: u64)
    ensures
        p == spec_needed_points(spec_oudler_count(cards@)),
{
    get_needed_points(compute_oudlers(cards))
}

/// Signed margin of a pool over its threshold, in half-point units.
pub fn diff_points(cards: &[Card]) -> (d: i64)
    requires
        cards@.len() <= 0xFFFF_FFFF,
    ensures
        d == spec_total_half_points(cards@) - spec_needed_points(spec_oudler_count(cards@)),
{
    let points = compute_points(cards);
    let needed_points = compute_needed_points(cards);
    proof {
        lemma_total_half_points_bounds(cards@);
    }
    points as i64 - needed_points as i64
}

/// Score multiplier of a winning bid; a passed hand is never scored.
pub open spec fn spec_multiplier(bid: Bids) -> int {
    match bid {
        Bids::Petite => 1,
        Bids::Garde => 2,
        Bids::GardeSans => 4,
        Bids::GardeContre => 6,
        Bids::Passe => 0,
    }
}

pub fn multiplier(bid: &Bids) -> (m: u64)
    ensures
        m == spec_multiplier(*bid),
{
    match bid {
        Bids::Petite => 1,
        Bids::Garde => 2,
        Bids::GardeSans => 4,
        Bids::GardeContre => 6,
        Bids::Passe => 0,
    }
}

} // verus!
