//! Kitty rules: which cards may be set aside, how large the kitty is for a
//! given table, and the step-by-step composition the taker performs.

use vstd::prelude::*;

use super::card::{spec_is_oudler, Card, KING_RANK};

verus! {

/// A card may enter a composed kitty only if it is neither an oudler nor a
/// King of a plain suit.
pub open spec fn spec_kitty_eligible(c: Card) -> bool {
    !spec_is_oudler(c) && !(!c.spec_is_trump() && c.rank == KING_RANK)
}

pub fn is_kitty_eligible(card: &Card) -> (b: bool)
    ensures
        b == spec_kitty_eligible(*card),
{
    !card.is_oudler() && !(!matches!(card.suit.name, super::card::CardSuits::Trumps)
        && card.rank == KING_RANK)
}

/// Size of the kitty by table size: six cards for 2 to 4 players, three
/// from 5 players up.
pub open spec fn spec_kitty_expected_size(n_players: int) -> int {
    if 2 <= n_players <= 4 {
        6
    } else if n_players >= 5 {
        3
    } else {
        0
    }
}

/// The set-aside cards, together with the size the rules fix for them.
#[derive(Debug)]
pub struct Kitty {
    pub cards: Vec<Card>,
    pub max_size: usize,
}

impl Kitty {
    /// All cards of a composed kitty pass the eligibility rule.
    pub open spec fn spec_composed(&self) -> bool {
        forall|i: int| 0 <= i < self.cards@.len() ==> spec_kitty_eligible(#[trigger] self.cards@[i])
    }

    pub fn new(n_players: usize) -> (k: Self)
        ensures
            k.cards@.len() == 0,
            k.max_size == spec_kitty_expected_size(n_players as int),
            k.spec_composed(),
    {
        Kitty {
            cards: Vec::new(),
            max_size: match n_players {
                2..=4 => 6,
                5.. => 3,
                _ => 0,
            },
        }
    }

    /// One composition step: move `hand[index]` into the kitty.  The card
    /// is accepted exactly when the kitty still has room and the card is
    /// eligible; a King or an oudler is always rejected, and a rejected
    /// selection leaves both the hand and the kitty unchanged.
    pub fn compose_select(&mut self, hand: &mut Vec<Card>, index: usize) -> (r: Result<
        (),
        &'static str,
    >)
        requires
            index < old(hand)@.len(),
        ensures
            final(self).max_size == old(self).max_size,
            r is Ok <==> (old(self).cards@.len() < old(self).max_size && spec_kitty_eligible(
                old(hand)@[index as int],
            )),
            r is Ok ==> final(self).cards@ == old(self).cards@.push(old(hand)@[index as int])
                && final(hand)@ == old(hand)@.remove(index as int),
            r is Err ==> final(self).cards@ == old(self).cards@ && final(hand)@ == old(hand)@,
            old(self).spec_composed() ==> final(self).spec_composed(),
    {
        if self.cards.len() >= self.max_size {
            return Err("The kitty is already complete");
        }
        let card = hand[index];
        if is_kitty_eligible(&card) {
            let card = hand.remove(index);
            self.cards.push(card);
            Ok(())
        } else {
            Err("You cannot select a King or an Oudler for the kitty.")
        }
    }
}

/// A composed kitty never holds a King or an oudler, whatever its size.
pub proof fn lemma_composed_kitty_has_no_honour(k: Kitty, i: int)
    requires
        k.spec_composed(),
        0 <= i < k.cards@.len(),
    ensures
        !spec_is_oudler(k.cards@[i]),
        !(!k.cards@[i].spec_is_trump() && k.cards@[i].rank == KING_RANK),
{
}

} // verus!
