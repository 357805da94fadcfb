//! Bid ladder: the five bid strengths in strictly increasing order, the
//! comparison rule that decides which bids may follow the current one, and
//! the deterministic bid-strength heuristic for automated players.

use vstd::prelude::*;

use super::card::Card;
use super::score::{compute_oudlers, compute_points, spec_oudler_count, spec_total_half_points};

verus! {

#[derive(Debug, Copy, Clone, PartialEq, Eq, Structural)]
pub enum Bids {
    Petite,
    Garde,
    GardeSans,
    GardeContre,
    Passe,
}

impl Default for Bids {
    /// The default bid is Passe, the neutral weakest rung.
    fn default() -> (b: Self)
        ensures
            b == Bids::Passe,
    {
        Bids::Passe
    }
}

/// Position of a bid on the ladder: Passe is weakest, GardeContre strongest.
pub open spec fn spec_bid_rank(b: Bids) -> int {
    match b {
        Bids::Passe => 0,
        Bids::Petite => 1,
        Bids::Garde => 2,
        Bids::GardeSans => 3,
        Bids::GardeContre => 4,
    }
}

/// Whether `bid` may be declared over `active_bid`: a real bid must sit
/// strictly higher on the ladder, and Passe answers only Passe.
pub open spec fn spec_bid_beats(bid: Bids, active_bid: Bids) -> bool {
    if bid is Passe {
        active_bid is Passe
    } else {
        spec_bid_rank(bid) > spec_bid_rank(active_bid)
    }
}

pub fn compare_bids(bid: &Bids, active_bid: &Bids) -> (r: bool)
    ensures
        r == spec_bid_beats(*bid, *active_bid),
{
    match bid {
        Bids::Passe => matches!(active_bid, Bids::Passe),
        Bids::Petite => matches!(active_bid, Bids::Passe),
        Bids::Garde => matches!(active_bid, Bids::Passe | Bids::Petite),
        Bids::GardeSans => matches!(active_bid, Bids::Passe | Bids::Petite | Bids::Garde),
        Bids::GardeContre => !matches!(active_bid, Bids::GardeContre),
    }
}

/// The bids that may be declared over `current`: every strictly stronger
/// bid, in ladder order, and Passe last, which is always available.
pub open spec fn spec_available_bids(current: Bids) -> Seq<Bids> {
    (if spec_bid_beats(Bids::Petite, current) {
        seq![Bids::Petite]
    } else {
        Seq::empty()
    }) + (if spec_bid_beats(Bids::Garde, current) {
        seq![Bids::Garde]
    } else {
        Seq::empty()
    }) + (if spec_bid_beats(Bids::GardeSans, current) {
        seq![Bids::GardeSans]
    } else {
        Seq::empty()
    }) + (if spec_bid_beats(Bids::GardeContre, current) {
        seq![Bids::GardeContre]
    } else {
        Seq::empty()
    }) + seq![Bids::Passe]
}

/// The current winning bid of an auction.
#[derive(Debug)]
pub struct Bid {
    pub current: Bids,
}

impl Default for Bid {
    /// An auction opens on Passe.
    fn default() -> (b: Self)
        ensures
            b.current == Bids::Passe,
    {
        Bid { current: Bids::Passe }
    }
}

impl Bid {
    pub fn new(current: Bids) -> (b: Self)
        ensures
            b.current == current,
    {
        Bid { current }
    }

    pub fn get_available_bids(&self) -> (r: Vec<Bids>)
        ensures
            r@ == spec_available_bids(self.current),
            r@.len() == 5 - spec_bid_rank(self.current),
    {
        let mut available_bids: Vec<Bids> = Vec::new();
        if compare_bids(&Bids::Petite, &self.current) {
            available_bids.push(Bids::Petite);
        }
        if compare_bids(&Bids::Garde, &self.current) {
            available_bids.push(Bids::Garde);
        }
        if compare_bids(&Bids::GardeSans, &self.current) {
            available_bids.push(Bids::GardeSans);
        }
        if compare_bids(&Bids::GardeContre, &self.current) {
            available_bids.push(Bids::GardeContre);
        }
        available_bids.push(Bids::Passe);
        proof {
            assert(available_bids@ =~= spec_available_bids(self.current));
        }
        available_bids
    }

    /// Automated bidding: take the heuristic's suggestion when it is still
    /// legal over the current winning bid, otherwise pass.
    pub fn bot_choose(&mut self, cards: &[Card]) -> (r: Bids)
        requires
            cards@.len() <= 0xFFFF_FFFF,
        ensures
            ({
                let ideal = spec_taker_evaluation(cards@);
                if ideal is Passe || !spec_bid_beats(ideal, old(self).current) {
                    r == Bids::Passe && final(self).current == old(self).current
                } else {
                    r == ideal && final(self).current == ideal
                }
            }),
    {
        let ideal_bid = taker_evaluation(cards);
        match ideal_bid {
            Bids::Passe => ideal_bid,
            _ => {
                if compare_bids(&ideal_bid, &self.current) {
                    self.current = ideal_bid;
                    ideal_bid
                } else {
                    Bids::Passe
                }
            },
        }
    }
}

/// The bid the deterministic heuristic suggests for a hand: the number of
/// oudlers held times the hand's point total modulo five points, mapped
/// through fixed two-point bands (the product is in half-point units, so
/// the bands are four units wide).
pub open spec fn spec_taker_evaluation(cards: Seq<Card>) -> Bids {
    let evaluation = spec_oudler_count(cards) * (spec_total_half_points(cards) % 10);
    if evaluation < 4 {
        Bids::Passe
    } else if evaluation < 8 {
        Bids::Petite
    } else if evaluation < 12 {
        Bids::Garde
    } else if evaluation < 16 {
        Bids::GardeSans
    } else {
        Bids::GardeContre
    }
}

pub fn taker_evaluation(cards: &[Card]) -> (b: Bids)
    requires
        cards@.len() <= 0xFFFF_FFFF,
    ensures
        b == spec_taker_evaluation(cards@),
{
    let n_oudlers = compute_oudlers(cards) as u64;
    let hand_score = compute_points(cards) % 10;
    proof {
        super::score::lemma_oudler_count_bounds(cards@);
        assert(n_oudlers * hand_score <= 0xFFFF_FFFFu64 * 9) by (nonlinear_arith)
            requires
                n_oudlers <= 0xFFFF_FFFF,
                hand_score <= 9,
        ;
    }
    let evaluation = n_oudlers * hand_score;
    if evaluation < 4 {
        Bids::Passe
    } else if evaluation < 8 {
        Bids::Petite
    } else if evaluation < 12 {
        Bids::Garde
    } else if evaluation < 16 {
        Bids::GardeSans
    } else {
        Bids::GardeContre
    }
}

/// The bid-ladder shape: Passe answers only Passe, the strongest bid
/// leaves only Passe available, and over an open auction every rung is
/// still available.
pub proof fn lemma_bid_ladder()
    ensures
        forall|any: Bids| spec_bid_beats(Bids::Passe, any) <==> any == Bids::Passe,
        spec_available_bids(Bids::GardeContre) =~= seq![Bids::Passe],
        spec_available_bids(Bids::Passe).len() == 5,
        forall|b: Bids, current: Bids|
            !(b is Passe) ==> (#[trigger] spec_bid_beats(b, current) <==> spec_bid_rank(b)
                > spec_bid_rank(current)),
{
}

} // verus!
