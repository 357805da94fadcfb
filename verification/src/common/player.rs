//! Players around the table, and the taker's hand bookkeeping when the
//! kitty is merged in: the merged hand stays sorted by suit then rank.

use vstd::prelude::*;

use super::card::{Card, CardSuits};
use super::hand::Hand;

verus! {

#[derive(Debug, Clone)]
pub struct Player {
    pub id: u8,
    pub name: String,
    pub score: u8,
    pub is_human: bool,
    pub is_dealer: bool,
    pub cards: Vec<Card>,
    pub picked_up_cards: Vec<Card>,
    pub hand: Hand,
}

impl Player {
    pub fn new(name: String, id: u8) -> (p: Self)
        ensures
            p.id == id,
            p.name == name,
            p.score == 0,
            !p.is_human,
            !p.is_dealer,
            p.cards@.len() == 0,
            p.picked_up_cards@.len() == 0,
            p.hand.cards@.len() == 0,
            p.hand.won_cards@.len() == 0,
    {
        Player {
            id,
            name,
            score: 0,
            is_human: false,
            is_dealer: false,
            cards: Vec::new(),
            picked_up_cards: Vec::new(),
            hand: Hand::default(),
        }
    }
}

/// Presentation order of the suits, the order of their one-letter codes.
pub open spec fn spec_suit_order(name: CardSuits) -> int {
    match name {
        CardSuits::Clubs => 0,
        CardSuits::Diamonds => 1,
        CardSuits::Hearts => 2,
        CardSuits::Spades => 3,
        CardSuits::Trumps => 4,
    }
}

/// Sort key of a card: suit first, rank within the suit.
pub open spec fn spec_card_key(c: Card) -> int {
    spec_suit_order(c.suit.name) * 256 + c.rank
}

pub open spec fn spec_sorted_by_key(s: Seq<Card>) -> bool {
    forall|i: int, j: int|
        0 <= i < j < s.len() ==> spec_card_key(#[trigger] s[i]) <= spec_card_key(#[trigger] s[j])
}

fn card_key(c: &Card) -> (k: u32)
    ensures
        k == spec_card_key(*c),
{
    let order: u32 = match c.suit.name {
        CardSuits::Clubs => 0,
        CardSuits::Diamonds => 1,
        CardSuits::Hearts => 2,
        CardSuits::Spades => 3,
        CardSuits::Trumps => 4,
    };
    order * 256 + c.rank as u32
}

/// Insert one card into a sorted pool, keeping it sorted.
fn insert_sorted(cards: &mut Vec<Card>, card: Card)
    requires
        spec_sorted_by_key(old(cards)@),
    ensures
        spec_sorted_by_key(final(cards)@),
        final(cards)@.to_multiset() == old(cards)@.to_multiset().insert(card),
        final(cards)@.len() == old(cards)@.len() + 1,
{
    broadcast use vstd::seq_lib::to_multiset_insert;

    let key = card_key(&card);
    let mut i: usize = 0;
    while i < cards.len() && card_key(&cards[i]) <= key
        invariant
            0 <= i <= cards@.len(),
            key == spec_card_key(card),
            forall|j: int| 0 <= j < i ==> spec_card_key(#[trigger] cards@[j]) <= spec_card_key(card),
        decreases cards@.len() - i,
    {
        i = i + 1;
    }
    cards.insert(i, card);
}

/// Merge the kitty into the taker's hand and keep the hand sorted by suit
/// then rank for deterministic presentation.
pub fn add_kitty_in_hand(kitty: &[Card], hand: &mut Hand)
    ensures
        final(hand).cards@.to_multiset() == (old(hand).cards@ + kitty@).to_multiset(),
        spec_sorted_by_key(final(hand).cards@),
        final(hand).won_cards == old(hand).won_cards,
        final(hand).side == old(hand).side,
{
    broadcast use vstd::seq_lib::group_to_multiset_ensures, vstd::seq_lib::lemma_multiset_commutative;

    let mut sorted: Vec<Card> = Vec::new();
    let mut i: usize = 0;
    while i < hand.cards.len()
        invariant
            0 <= i <= hand.cards@.len(),
            spec_sorted_by_key(sorted@),
            sorted@.to_multiset() == hand.cards@.subrange(0, i as int).to_multiset(),
        decreases hand.cards@.len() - i,
    {
        proof {
            let sub = hand.cards@.subrange(0, i as int);
            let x = hand.cards@[i as int];
            assert(hand.cards@.subrange(0, i + 1) =~= sub.push(x));
            vstd::seq_lib::to_multiset_build(sub, x);
        }
        insert_sorted(&mut sorted, hand.cards[i]);
        i = i + 1;
    }
    proof {
        assert(hand.cards@.subrange(0, hand.cards@.len() as int) =~= hand.cards@);
        assert(hand.cards@ + kitty@.subrange(0, 0) =~= hand.cards@);
    }
    let mut j: usize = 0;
    while j < kitty.len()
        invariant
            0 <= j <= kitty@.len(),
            spec_sorted_by_key(sorted@),
            sorted@.to_multiset() == (hand.cards@ + kitty@.subrange(0, j as int)).to_multiset(),
        decreases kitty@.len() - j,
    {
        proof {
            let sub = hand.cards@ + kitty@.subrange(0, j as int);
            let x = kitty@[j as int];
            assert(hand.cards@ + kitty@.subrange(0, j + 1) =~= sub.push(x));
            vstd::seq_lib::to_multiset_build(sub, x);
        }
        insert_sorted(&mut sorted, kitty[j]);
        j = j + 1;
    }
    proof {
        assert(hand.cards@.subrange(0, hand.cards@.len() as int) =~= hand.cards@);
        assert(kitty@.subrange(0, kitty@.len() as int) =~= kitty@);
    }
    hand.cards = sorted;
}

} // verus!
