//! A player's cards over a deal: the ones still in hand and the ones won
//! from tricks, with the side the player ends up on.

use vstd::prelude::*;

use super::card::Card;

verus! {

#[derive(Debug, Clone, Copy, PartialEq, Eq, Structural)]
pub enum Side {
    Attack,
    Defense,
}

impl Default for Side {
    /// Everyone defends until a bid is won.
    fn default() -> (s: Self)
        ensures
            s == Side::Defense,
    {
        Side::Defense
    }
}

#[derive(Debug, Clone)]
pub struct Hand {
    pub cards: Vec<Card>,
    pub won_cards: Vec<Card>,
    pub side: Side,
}

impl Default for Hand {
    /// A hand starts empty, on the defending side.
    fn default() -> (h: Self)
        ensures
            h.cards@.len() == 0,
            h.won_cards@.len() == 0,
            h.side == Side::Defense,
    {
        Hand { cards: Vec::new(), won_cards: Vec::new(), side: Side::Defense }
    }
}

} // verus!
