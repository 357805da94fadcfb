//! Trick engine: which played card is currently winning a trick, and which
//! of a player's cards may legally be played into it.

use vstd::prelude::*;

use super::card::{spec_is_superior, Card, CardSuits, CardSuitsGetters};
use super::utils::contains_card;

verus! {

/// The cards played into the current trick, in play order; the first card
/// sets the called suit.
#[derive(Debug)]
pub struct Trick {
    pub played_cards: Vec<Card>,
}

impl Default for Trick {
    /// A trick opens empty.
    fn default() -> (t: Self)
        ensures
            t.played_cards@.len() == 0,
    {
        Trick { played_cards: Vec::new() }
    }
}

pub trait TrickGetters {
    /// The called suit: the suit of the first card played, if any.
    spec fn spec_played_suit(&self) -> Option<CardSuits>;

    fn played_suit(&self) -> (r: Option<CardSuits>)
        ensures
            r == self.spec_played_suit(),
    ;
}

impl TrickGetters for Trick {
    open spec fn spec_played_suit(&self) -> Option<CardSuits> {
        if self.played_cards@.len() == 0 {
            None
        } else {
            Some(self.played_cards@[0].suit.name)
        }
    }

    fn played_suit(&self) -> (r: Option<CardSuits>)
        ensures
            r == self.spec_played_suit(),
    {
        if self.played_cards.len() == 0 {
            None
        } else {
            Some(self.played_cards[0].suit.name)
        }
    }
}

/// The suit a winner scan compares against: the explicit one if given,
/// otherwise the trick's called suit.
pub open spec fn spec_resolved_suit(trick: Seq<Card>, played_suit: Option<CardSuits>) -> CardSuits
    recommends
        trick.len() > 0 || played_suit is Some,
{
    match played_suit {
        Some(s) => s,
        None => trick[0].suit.name,
    }
}

/// Index of the winning card among the first `n` played: scan left to
/// right, replacing the current best whenever a later card is superior
/// under the called suit.
pub open spec fn spec_best_index(cards: Seq<Card>, played: CardSuits, n: int) -> int
    recommends
        1 <= n <= cards.len(),
    decreases n,
{
    if n <= 1 {
        0
    } else {
        let prev = spec_best_index(cards, played, n - 1);
        if spec_is_superior(cards[n - 1], cards[prev], Some(played)) {
            n - 1
        } else {
            prev
        }
    }
}

/// The scan's winner is beaten by no other card of the trick: whoever
/// holds the best-index card holds the trick so far.
pub proof fn lemma_best_card_unbeaten(cards: Seq<Card>, played: CardSuits, n: int)
    requires
        1 <= n <= cards.len(),
    ensures
        0 <= spec_best_index(cards, played, n) < n,
        forall|j: int|
            0 <= j < n ==> !spec_is_superior(
                #[trigger] cards[j],
                cards[spec_best_index(cards, played, n)],
                Some(played),
            ),
    decreases n,
{
    if n > 1 {
        lemma_best_card_unbeaten(cards, played, n - 1);
    }
}

impl Trick {
    /// Index of the card currently winning the trick, or `None` while the
    /// trick is empty.  The called suit stays fixed for the whole scan.
    pub fn get_best_played_card_index(&self, played_suit: Option<CardSuits>) -> (r: Option<
        usize,
    >)
        ensures
            r is Some <==> self.played_cards@.len() > 0,
            self.played_cards@.len() > 0 ==> (r matches Some(best) && best < self.played_cards@.len()
                && best as int == spec_best_index(
                self.played_cards@,
                spec_resolved_suit(self.played_cards@, played_suit),
                self.played_cards@.len() as int,
            ) && forall|j: int|
                0 <= j < self.played_cards@.len() ==> !spec_is_superior(
                    #[trigger] self.played_cards@[j],
                    self.played_cards@[best as int],
                    Some(spec_resolved_suit(self.played_cards@, played_suit)),
                )),
    {
        let len = self.played_cards.len();
        if len == 0 {
            return None;
        }
        let suit = match played_suit {
            Some(s) => s,
            None => self.played_cards[0].suit.name,
        };
        let mut best: usize = 0;
        let mut i: usize = 1;
        while i < len
            invariant
                1 <= i <= len,
                len == self.played_cards@.len(),
                best < i,
                suit == spec_resolved_suit(self.played_cards@, played_suit),
                best as int == spec_best_index(self.played_cards@, suit, i as int),
            decreases len - i,
        {
            if self.played_cards[i].is_superior_than(&self.played_cards[best], Some(suit)) {
                best = i;
            }
            i = i + 1;
        }
        proof {
            lemma_best_card_unbeaten(
                self.played_cards@,
                suit,
                self.played_cards@.len() as int,
            );
        }
        Some(best)
    }
}

/// The cards of a pool that follow the given suit.
pub open spec fn spec_cards_of_suit(cards: Seq<Card>, name: CardSuits) -> Seq<Card> {
    cards.filter(|c: Card| c.suit.name == name)
}

/// The trumps of a pool that overtake the given best trump.
pub open spec fn spec_overtaking_trumps(cards: Seq<Card>, best: Card) -> Seq<Card> {
    cards.filter(
        |c: Card| c.spec_is_trump() && spec_is_superior(c, best, Some(CardSuits::Trumps)),
    )
}

/// The legal plays from `hand` into a trick whose cards so far are `trick`:
/// an empty trick admits anything; a trump lead must be overtaken when it
/// can be, else any held trump goes; a plain lead must be followed, else
/// trumped, else anything may be discarded.
pub open spec fn spec_allowed_cards(trick: Seq<Card>, hand: Seq<Card>) -> Seq<Card> {
    if trick.len() == 0 {
        hand
    } else {
        let led = trick[0].suit.name;
        let has_led = exists|i: int| 0 <= i < hand.len() && hand[i].suit.name == led;
        let has_trumps = exists|i: int| 0 <= i < hand.len() && hand[i].spec_is_trump();
        if led is Trumps {
            if has_trumps {
                let best = trick[spec_best_index(trick, CardSuits::Trumps, trick.len() as int)];
                let overtaking = spec_overtaking_trumps(hand, best);
                if overtaking.len() == 0 {
                    spec_cards_of_suit(hand, CardSuits::Trumps)
                } else {
                    overtaking
                }
            } else {
                hand
            }
        } else if has_led {
            spec_cards_of_suit(hand, led)
        } else if has_trumps {
            spec_cards_of_suit(hand, CardSuits::Trumps)
        } else {
            hand
        }
    }
}

/// Whether the pool holds a card of the given suit.
fn has_card_of_suit(cards: &[Card], name: CardSuits) -> (b: bool)
    ensures
        b == exists|i: int| 0 <= i < cards@.len() && cards@[i].suit.name == name,
{
    let mut i: usize = 0;
    while i < cards.len()
        invariant
            0 <= i <= cards@.len(),
            forall|j: int| 0 <= j < i ==> cards@[j].suit.name != name,
        decreases cards@.len() - i,
    {
        if cards[i].suit.name == name {
            return true;
        }
        i = i + 1;
    }
    false
}

/// Copy of the cards of the pool that follow the given suit.
fn cards_of_suit(cards: &[Card], name: CardSuits) -> (r: Vec<Card>)
    ensures
        r@ == spec_cards_of_suit(cards@, name),
{
    let mut r: Vec<Card> = Vec::new();
    let mut i: usize = 0;
    proof {
        reveal(Seq::filter);
        assert(cards@.subrange(0, 0) =~= Seq::<Card>::empty());
    }
    while i < cards.len()
        invariant
            0 <= i <= cards@.len(),
            r@ == spec_cards_of_suit(cards@.subrange(0, i as int), name),
        decreases cards@.len() - i,
    {
        proof {
            assert(cards@.subrange(0, i + 1) =~= cards@.subrange(0, i as int).push(cards@[i as int]));
            cards@.subrange(0, i as int).lemma_filter_push(
                cards@[i as int],
                |c: Card| c.suit.name == name,
            );
        }
        if cards[i].suit.name == name {
            r.push(cards[i]);
        }
        i = i + 1;
    }
    proof {
        assert(cards@.subrange(0, cards@.len() as int) =~= cards@);
    }
    r
}

/// Copy of the trumps of the pool that overtake `best`.
fn overtaking_trumps(cards: &[Card], best: &Card) -> (r: Vec<Card>)
    ensures
        r@ == spec_overtaking_trumps(cards@, *best),
{
    let mut r: Vec<Card> = Vec::new();
    let mut i: usize = 0;
    proof {
        reveal(Seq::filter);
        assert(cards@.subrange(0, 0) =~= Seq::<Card>::empty());
    }
    while i < cards.len()
        invariant
            0 <= i <= cards@.len(),
            r@ == spec_overtaking_trumps(cards@.subrange(0, i as int), *best),
        decreases cards@.len() - i,
    {
        proof {
            assert(cards@.subrange(0, i + 1) =~= cards@.subrange(0, i as int).push(cards@[i as int]));
            cards@.subrange(0, i as int).lemma_filter_push(
                cards@[i as int],
                |c: Card| c.spec_is_trump() && spec_is_superior(c, *best, Some(CardSuits::Trumps)),
            );
        }
        if cards[i].suit.is_trump() && cards[i].is_superior_than(best, Some(CardSuits::Trumps)) {
            r.push(cards[i]);
        }
        i = i + 1;
    }
    proof {
        assert(cards@.subrange(0, cards@.len() as int) =~= cards@);
    }
    r
}

fn copy_all(cards: &[Card]) -> (r: Vec<Card>)
    ensures
        r@ == cards@,
{
    let mut r: Vec<Card> = Vec::new();
    let mut i: usize = 0;
    while i < cards.len()
        invariant
            0 <= i <= cards@.len(),
            r@ == cards@.subrange(0, i as int),
        decreases cards@.len() - i,
    {
        proof {
            assert(cards@.subrange(0, i + 1) =~= cards@.subrange(0, i as int).push(cards@[i as int]));
        }
        r.push(cards[i]);
        i = i + 1;
    }
    proof {
        assert(cards@.subrange(0, cards@.len() as int) =~= cards@);
    }
    r
}

/// The set of cards the acting player may legally play, as spec.
pub fn allowed_cards_to_play(trick: &Trick, player_cards: &[Card]) -> (r: Vec<Card>)
    ensures
        r@ == spec_allowed_cards(trick.played_cards@, player_cards@),
{
    let played_suit = trick.played_suit();

    match played_suit {
        None => copy_all(player_cards),
        Some(played_suit) => {
            let has_played_suit = has_card_of_suit(player_cards, played_suit);
            let has_trumps = has_card_of_suit(player_cards, CardSuits::Trumps);

            if matches!(played_suit, CardSuits::Trumps) {
                if has_trumps {
                    let best_index = trick.get_best_played_card_index(
                        Some(CardSuits::Trumps),
                    ).unwrap();
                    let best_played_trump = trick.played_cards[best_index];

                    let superior_trumps = overtaking_trumps(player_cards, &best_played_trump);
                    if superior_trumps.len() == 0 {
                        // No held trump overtakes: any held trump may go.
                        cards_of_suit(player_cards, CardSuits::Trumps)
                    } else {
                        superior_trumps
                    }
                } else {
                    // No trump in hand: discard freely.
                    copy_all(player_cards)
                }
            } else if has_played_suit {
                cards_of_suit(player_cards, played_suit)
            } else if has_trumps {
                cards_of_suit(player_cards, CardSuits::Trumps)
            } else {
                copy_all(player_cards)
            }
        },
    }
}

/// A player holding any card at all always has a legal play: the
/// legal-play set is never empty for a non-empty hand.
pub proof fn lemma_legal_set_nonempty(trick: Seq<Card>, hand: Seq<Card>)
    requires
        hand.len() > 0,
    ensures
        spec_allowed_cards(trick, hand).len() > 0,
{
    broadcast use vstd::seq_lib::group_filter_ensures;

    if trick.len() > 0 {
        let led = trick[0].suit.name;
        let has_led = exists|i: int| 0 <= i < hand.len() && hand[i].suit.name == led;
        let has_trumps = exists|i: int| 0 <= i < hand.len() && hand[i].spec_is_trump();
        if led is Trumps {
            if has_trumps {
                let best = trick[spec_best_index(trick, CardSuits::Trumps, trick.len() as int)];
                if spec_overtaking_trumps(hand, best).len() == 0 {
                    let w = choose|i: int| 0 <= i < hand.len() && hand[i].spec_is_trump();
                    assert(spec_cards_of_suit(hand, CardSuits::Trumps).contains(hand[w]));
                }
            }
        } else if has_led {
            let w = choose|i: int| 0 <= i < hand.len() && hand[i].suit.name == led;
            assert(spec_cards_of_suit(hand, led).contains(hand[w]));
        } else if has_trumps {
            let w = choose|i: int| 0 <= i < hand.len() && hand[i].spec_is_trump();
            assert(spec_cards_of_suit(hand, CardSuits::Trumps).contains(hand[w]));
        }
    }
}

impl Trick {
    /// Play `player_cards[index]` into the trick.  The play happens exactly
    /// when the card lies in the legal-play set: the card then moves from
    /// the hand to the end of the trick.  An illegal selection is rejected
    /// and changes nothing, so the caller may ask again.
    pub fn play(&mut self, player_cards: &mut Vec<Card>, index: usize) -> (r: Result<
        (),
        &'static str,
    >)
        requires
            index < old(player_cards)@.len(),
        ensures
            r is Ok <==> spec_allowed_cards(
                old(self).played_cards@,
                old(player_cards)@,
            ).contains(old(player_cards)@[index as int]),
            r is Ok ==> final(self).played_cards@ == old(self).played_cards@.push(
                old(player_cards)@[index as int],
            ) && final(player_cards)@ == old(player_cards)@.remove(index as int),
            r is Err ==> final(self).played_cards@ == old(self).played_cards@
                && final(player_cards)@ == old(player_cards)@,
    {
        let card = player_cards[index];
        match check_selected_card(self, player_cards.as_slice(), &card) {
            Ok(_) => {
                let card = player_cards.remove(index);
                self.played_cards.push(card);
                Ok(())
            },
            Err(message) => Err(message),
        }
    }
}

/// Legality check for one selected card: accepted exactly when it lies in
/// the legal-play set, otherwise rejected with a retryable error.
pub fn check_selected_card(
    trick: &Trick,
    player_cards: &[Card],
    player_selected_card: &Card,
) -> (r: Result<bool, &'static str>)
    ensures
        r is Ok <==> spec_allowed_cards(trick.played_cards@, player_cards@).contains(
            *player_selected_card,
        ),
        r matches Ok(b) ==> b,
{
    let allowed_cards = allowed_cards_to_play(trick, player_cards);
    if contains_card(&allowed_cards, player_selected_card) {
        Ok(true)
    } else {
        Err("Selected card is not allowed to be played")
    }
}

} // verus!
