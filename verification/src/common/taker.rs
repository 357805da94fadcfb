//! The player who won the auction, together with the bid they must now
//! defend.

use vstd::prelude::*;

use super::bid::Bids;
use super::player::Player;

verus! {

#[derive(Debug, Clone)]
pub struct Taker {
    pub player: Player,
    pub bid: Bids,
}

} // verus!
