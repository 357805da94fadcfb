//! Deck and table management: building the 78-card pack, shuffling and
//! splitting it, creating the players and rotating the dealer.

use vstd::prelude::*;

use rand::prelude::SliceRandom;
use rand::thread_rng;

use super::card::{spec_suit, suit_max_rank, Card, CardSuits};
use super::deal::Deal;
use super::player::Player;
use super::card::spec_half_points;
use super::score::{spec_oudler_count, spec_total_half_points};
use super::utils::{get_next_index, random_int_in_range};

verus! {

pub const NUMBER_CARDS_BY_SUIT: usize = 14;
pub const NUMBER_TRUMP_CARDS: usize = 22;

pub const TOTAL_CARDS: usize = 78;
pub const MIN_NUMBER_CARDS_SPLIT: usize = 3;
pub const MAX_NUMBER_CARDS_SPLIT: usize = TOTAL_CARDS - MIN_NUMBER_CARDS_SPLIT;

/// The cards of one suit, rank 1 up to `n`, in rank order.
pub open spec fn spec_rank_run(suit: CardSuits, n: int) -> Seq<Card> {
    Seq::new(n as nat, |i: int| Card { rank: (i + 1) as u8, suit: spec_suit(suit) })
}

/// The full 78-card pack in build order: the four plain suits, then the
/// trumps.
pub open spec fn spec_full_deck() -> Seq<Card> {
    spec_rank_run(CardSuits::Clubs, 14) + spec_rank_run(CardSuits::Diamonds, 14) + spec_rank_run(
        CardSuits::Hearts,
        14,
    ) + spec_rank_run(CardSuits::Spades, 14) + spec_rank_run(CardSuits::Trumps, 22)
}

/// All cards of one suit, rank 1 up to `n_cards`.
pub fn generate_card(n_cards: usize, suit: CardSuits) -> (r: Vec<Card>)
    requires
        n_cards <= suit_max_rank(suit),
    ensures
        r@ == spec_rank_run(suit, n_cards as int),
        forall|i: int| 0 <= i < r@.len() ==> (#[trigger] r@[i]).wf(),
{
    let mut cards: Vec<Card> = Vec::new();
    let mut rank: usize = 0;
    while rank < n_cards
        invariant
            0 <= rank <= n_cards,
            n_cards <= suit_max_rank(suit),
            cards@ == spec_rank_run(suit, rank as int),
        decreases n_cards - rank,
    {
        let card = Card::new((rank + 1) as u8, suit);
        cards.push(card);
        rank = rank + 1;
        proof {
            assert(cards@ =~= spec_rank_run(suit, rank as int));
        }
    }
    proof {
        assert forall|i: int| 0 <= i < cards@.len() implies (#[trigger] cards@[i]).wf() by {}
    }
    cards
}

/// Append the whole pack, suit by suit, to the deck being built.
pub fn generate_suits(deck: &mut Vec<Card>)
    ensures
        final(deck)@ == old(deck)@ + spec_full_deck(),
{
    let mut clubs = generate_card(NUMBER_CARDS_BY_SUIT, CardSuits::Clubs);
    let mut diamonds = generate_card(NUMBER_CARDS_BY_SUIT, CardSuits::Diamonds);
    let mut hearts = generate_card(NUMBER_CARDS_BY_SUIT, CardSuits::Hearts);
    let mut spades = generate_card(NUMBER_CARDS_BY_SUIT, CardSuits::Spades);
    let mut trumps = generate_card(NUMBER_TRUMP_CARDS, CardSuits::Trumps);
    deck.append(&mut clubs);
    deck.append(&mut diamonds);
    deck.append(&mut hearts);
    deck.append(&mut spades);
    deck.append(&mut trumps);
    proof {
        assert(deck@ =~= old(deck)@ + spec_full_deck());
    }
}

/// Relies on `rand::seq::SliceRandom::shuffle`: an in-place permutation of
/// the slice, so the cards are rearranged but none appears or disappears.
#[verifier::external_body]
fn shuffle_cards(cards: &mut Vec<Card>)
    ensures
        final(cards)@.len() == old(cards)@.len(),
        final(cards)@.to_multiset() == old(cards)@.to_multiset(),
{
    cards.shuffle(&mut thread_rng());
}

/// A freshly shuffled 78-card pack: the same cards as the build order,
/// in some order.
pub fn create_deck() -> (deck: Vec<Card>)
    ensures
        deck@.len() == 78,
        deck@.to_multiset() == spec_full_deck().to_multiset(),
{
    let mut deck: Vec<Card> = Vec::new();
    generate_suits(&mut deck);
    proof {
        assert(deck@ =~= spec_full_deck());
    }
    shuffle_cards(&mut deck);
    deck
}

/// Cut the deck at a random point, neither end keeping fewer than three
/// cards, and put the bottom part on top.
pub fn split_deck(deck: &mut Vec<Card>)
    requires
        old(deck)@.len() == TOTAL_CARDS,
    ensures
        final(deck)@.len() == old(deck)@.len(),
        exists|split: int|
            1 <= split < MAX_NUMBER_CARDS_SPLIT && final(deck)@ == old(deck)@.subrange(
                split,
                old(deck)@.len() as int,
            ) + old(deck)@.subrange(0, split),
{
    let split_index = random_int_in_range(1, MAX_NUMBER_CARDS_SPLIT);
    let rotated = super::utils::reorder(deck, split_index);
    *deck = rotated;
}

/// The players of a table: the first is the human seat, the rest bots,
/// numbered from 1.
fn generate_players(n_players: u8) -> (players: Vec<Player>)
    requires
        n_players <= 5,
    ensures
        players@.len() == n_players,
        forall|i: int|
            0 <= i < players@.len() ==> {
                let p = #[trigger] players@[i];
                &&& p.id == i + 1
                &&& p.name@ == spec_player_name(i + 1)
                &&& p.is_human == (i == 0)
                &&& !p.is_dealer
                &&& p.score == 0
                &&& p.hand.cards@.len() == 0
                &&& p.hand.won_cards@.len() == 0
            },
{
    let mut players: Vec<Player> = Vec::new();
    let mut i: u8 = 1;
    while i <= n_players
        invariant
            1 <= i <= n_players + 1,
            n_players <= 5,
            players@.len() == i - 1,
            forall|j: int|
                0 <= j < players@.len() ==> {
                    let p = #[trigger] players@[j];
                    &&& p.id == j + 1
                    &&& p.name@ == spec_player_name(j + 1)
                    &&& p.is_human == (j == 0)
                    &&& !p.is_dealer
                    &&& p.score == 0
                    &&& p.hand.cards@.len() == 0
                    &&& p.hand.won_cards@.len() == 0
                },
        decreases n_players + 1 - i,
    {
        let mut player = Player::new(player_name(i), i);
        player.is_human = i == 1;
        players.push(player);
        i = i + 1;
    }
    players
}

/// Display name of the player in the given seat.
pub open spec fn spec_player_name(i: int) -> Seq<char> {
    if i == 1 {
        "Player 1"@
    } else if i == 2 {
        "Player 2"@
    } else if i == 3 {
        "Player 3"@
    } else if i == 4 {
        "Player 4"@
    } else {
        "Player 5"@
    }
}

fn player_name(i: u8) -> (name: String)
    requires
        1 <= i <= 5,
    ensures
        name@ == spec_player_name(i as int),
{
    match i {
        1 => String::from_str("Player 1"),
        2 => String::from_str("Player 2"),
        3 => String::from_str("Player 3"),
        4 => String::from_str("Player 4"),
        _ => String::from_str("Player 5"),
    }
}

/// Hand the dealer button to one player, drawn at random.
fn set_first_dealer(players: &mut Vec<Player>)
    requires
        old(players)@.len() > 0,
    ensures
        final(players)@.len() == old(players)@.len(),
        exists|d: int|
            0 <= d < old(players)@.len() && final(players)@ == old(players)@.update(
                d,
                spec_with_dealer(old(players)@[d], true),
            ),
{
    let index = random_int_in_range(0, players.len());
    let mut player = players.remove(index);
    player.is_dealer = true;
    players.insert(index, player);
    proof {
        assert(players@ =~= old(players)@.update(
            index as int,
            spec_with_dealer(old(players)@[index as int], true),
        ));
    }
}

/// The same player with the dealer button granted or taken away.
pub open spec fn spec_with_dealer(p: Player, is_dealer: bool) -> Player {
    Player { is_dealer, ..p }
}

/// Exactly one seat of the table holds the dealer button.
pub open spec fn spec_exactly_one_dealer(players: Seq<Player>) -> bool {
    exists|d: int|
        #![trigger players[d].is_dealer]
        0 <= d < players.len() && forall|i: int|
            0 <= i < players.len() ==> ((#[trigger] players[i]).is_dealer <==> i == d)
}

/// A fresh table: `n_players` seats, exactly one of them the dealer.
pub fn create_players(n_players: u8) -> (players: Vec<Player>)
    requires
        1 <= n_players <= 5,
    ensures
        players@.len() == n_players,
        spec_exactly_one_dealer(players@),
{
    let mut players = generate_players(n_players);
    let ghost before = players@;
    set_first_dealer(&mut players);
    proof {
        let d = choose|d: int|
            0 <= d < before.len() && players@ == before.update(
                d,
                spec_with_dealer(before[d], true),
            );
        assert(players@[d].is_dealer);
        assert forall|i: int| 0 <= i < players@.len() implies ((#[trigger] players@[i]).is_dealer
            <==> i == d) by {
            if i != d {
                assert(players@[i] == before[i]);
            }
        }
    }
    players
}

/// Seat of the current dealer: the first seat holding the button.
pub open spec fn spec_find_dealer(players: Seq<Player>) -> int
    decreases players.len(),
{
    if players.len() == 0 {
        0
    } else if players[0].is_dealer {
        0
    } else {
        1 + spec_find_dealer(players.drop_first())
    }
}

proof fn lemma_find_dealer(players: Seq<Player>)
    requires
        exists|i: int| 0 <= i < players.len() && (#[trigger] players[i]).is_dealer,
    ensures
        0 <= spec_find_dealer(players) < players.len(),
        players[spec_find_dealer(players)].is_dealer,
        forall|j: int| 0 <= j < spec_find_dealer(players) ==> !(#[trigger] players[j]).is_dealer,
    decreases players.len(),
{
    if players.len() > 0 && !players[0].is_dealer {
        let sub = players.drop_first();
        assert forall|i: int| 0 <= i < players.len() && (#[trigger] players[i]).is_dealer implies i
            >= 1 by {}
        let w = choose|i: int| 0 <= i < players.len() && (#[trigger] players[i]).is_dealer;
        assert(sub[w - 1].is_dealer);
        lemma_find_dealer(sub);
        assert(players[spec_find_dealer(players)] == sub[spec_find_dealer(sub)]);
        assert forall|j: int| 0 <= j < spec_find_dealer(players) implies !(
        #[trigger] players[j]).is_dealer by {
            if j >= 1 {
                assert(players[j] == sub[j - 1]);
            }
        }
    }
}

/// Seat of the current dealer; the table must have one.
pub fn find_dealer(players: &Vec<Player>) -> (r: usize)
    requires
        exists|i: int| 0 <= i < players@.len() && (#[trigger] players@[i]).is_dealer,
    ensures
        r == spec_find_dealer(players@),
        r < players@.len(),
        players@[r as int].is_dealer,
{
    proof {
        lemma_find_dealer(players@);
    }
    let mut i: usize = 0;
    while i < players.len() && !players[i].is_dealer
        invariant
            0 <= i <= spec_find_dealer(players@) < players@.len(),
            players@[spec_find_dealer(players@)].is_dealer,
            forall|j: int| 0 <= j < spec_find_dealer(players@) ==> !(
            #[trigger] players@[j]).is_dealer,
        decreases players@.len() - i,
    {
        i = i + 1;
    }
    proof {
        assert(players@[i as int].is_dealer);
        assert(i == spec_find_dealer(players@)) by {
            if i < spec_find_dealer(players@) {
                assert(!players@[i as int].is_dealer);
            }
        }
    }
    i
}

/// Pass the dealer button to the next seat around the table.
pub fn update_dealer(players: &mut Vec<Player>)
    requires
        old(players)@.len() > 0,
        exists|i: int| 0 <= i < old(players)@.len() && (#[trigger] old(players)@[i]).is_dealer,
    ensures
        final(players)@.len() == old(players)@.len(),
        ({
            let d = spec_find_dealer(old(players)@);
            let n = if d + 1 < old(players)@.len() {
                d + 1
            } else {
                0
            };
            let cleared = old(players)@.update(d, spec_with_dealer(old(players)@[d], false));
            final(players)@ == cleared.update(n, spec_with_dealer(cleared[n], true))
        }),
{
    let index = find_dealer(players);
    let mut player = players.remove(index);
    player.is_dealer = false;
    players.insert(index, player);
    proof {
        assert(players@ =~= old(players)@.update(
            index as int,
            spec_with_dealer(old(players)@[index as int], false),
        ));
    }
    let ghost cleared = players@;
    let new_index = get_next_index(players, index);
    let mut player = players.remove(new_index);
    player.is_dealer = true;
    players.insert(new_index, player);
    proof {
        assert(players@ =~= cleared.update(
            new_index as int,
            spec_with_dealer(cleared[new_index as int], true),
        ));
    }
}

/// A running game: the table, the pack between deals, and the deals
/// played so far.
#[derive(Debug)]
pub struct Game {
    pub players: Vec<Player>,
    pub deck: Vec<Card>,
    pub deals: Vec<Deal>,
}

/// The cards one player returns to the pack after a deal: the hand if any
/// of it is left, the won pile otherwise.
pub open spec fn spec_returned_cards(p: Player) -> Seq<Card> {
    if p.hand.cards@.len() > 0 {
        p.hand.cards@
    } else {
        p.hand.won_cards@
    }
}

/// All cards the players return to the pack, in seat order.
pub open spec fn spec_collected_deck(players: Seq<Player>) -> Seq<Card>
    decreases players.len(),
{
    if players.len() == 0 {
        Seq::empty()
    } else {
        spec_collected_deck(players.drop_last()) + spec_returned_cards(players.last())
    }
}

impl Default for Game {
    /// The usual table of four players.
    fn default() -> (g: Self)
        ensures
            g.players@.len() == 4,
            spec_exactly_one_dealer(g.players@),
            g.deck@.len() == 78,
            g.deck@.to_multiset() == spec_full_deck().to_multiset(),
            g.deals@.len() == 0,
    {
        Game::new(4)
    }
}

impl Game {
    /// A fresh table of `n_players` with one dealer, and a shuffled pack.
    pub fn new(n_players: u8) -> (g: Self)
        requires
            1 <= n_players <= 5,
        ensures
            g.players@.len() == n_players,
            spec_exactly_one_dealer(g.players@),
            g.deck@.len() == 78,
            g.deck@.to_multiset() == spec_full_deck().to_multiset(),
            g.deals@.len() == 0,
    {
        Game { players: create_players(n_players), deck: create_deck(), deals: Vec::new() }
    }

    /// Cut the pack at a random point.
    pub fn split_deck(&mut self)
        requires
            old(self).deck@.len() == TOTAL_CARDS,
        ensures
            final(self).players == old(self).players,
            final(self).deals == old(self).deals,
            final(self).deck@.len() == old(self).deck@.len(),
            exists|split: int|
                1 <= split < MAX_NUMBER_CARDS_SPLIT && final(self).deck@ == old(
                    self,
                ).deck@.subrange(split, old(self).deck@.len() as int) + old(self).deck@.subrange(
                    0,
                    split,
                ),
    {
        split_deck(&mut self.deck);
    }

    /// Gather the cards back from the table into the pack: each player
    /// returns the hand if any of it is left, the won pile otherwise.
    pub fn collect_deck(&mut self, players: &[Player])
        ensures
            final(self).players == old(self).players,
            final(self).deals == old(self).deals,
            final(self).deck@ == spec_collected_deck(players@),
    {
        let mut deck: Vec<Card> = Vec::new();
        let mut i: usize = 0;
        while i < players.len()
            invariant
                0 <= i <= players@.len(),
                deck@ == spec_collected_deck(players@.subrange(0, i as int)),
            decreases players@.len() - i,
        {
            proof {
                assert(players@.subrange(0, i + 1).drop_last() =~= players@.subrange(0, i as int));
            }
            let player = &players[i];
            let mut part = if player.hand.cards.len() > 0 {
                super::utils::clone_cards(&player.hand.cards)
            } else {
                super::utils::clone_cards(&player.hand.won_cards)
            };
            deck.append(&mut part);
            i = i + 1;
        }
        proof {
            assert(players@.subrange(0, players@.len() as int) =~= players@);
        }
        self.deck = deck;
    }

    /// Pass the dealer button to the next seat.
    pub fn update_dealer(&mut self)
        requires
            old(self).players@.len() > 0,
            exists|i: int|
                0 <= i < old(self).players@.len() && (#[trigger] old(self).players@[i]).is_dealer,
        ensures
            final(self).deck == old(self).deck,
            final(self).deals == old(self).deals,
            final(self).players@.len() == old(self).players@.len(),
            ({
                let d = spec_find_dealer(old(self).players@);
                let n = if d + 1 < old(self).players@.len() {
                    d + 1
                } else {
                    0
                };
                let cleared = old(self).players@.update(
                    d,
                    spec_with_dealer(old(self).players@[d], false),
                );
                final(self).players@ == cleared.update(n, spec_with_dealer(cleared[n], true))
            }),
    {
        update_dealer(&mut self.players);
    }

    /// Turn the table so the seat after the dealer plays first.
    pub fn reorder_players(&mut self)
        requires
            old(self).players@.len() > 0,
            exists|i: int|
                0 <= i < old(self).players@.len() && (#[trigger] old(self).players@[i]).is_dealer,
        ensures
            final(self).deck == old(self).deck,
            final(self).deals == old(self).deals,
            ({
                let d = spec_find_dealer(old(self).players@);
                let n = old(self).players@.len() as int;
                let start = if d + 1 < n {
                    d + 1
                } else {
                    0
                };
                final(self).players@ == old(self).players@.subrange(start, n) + old(
                    self,
                ).players@.subrange(0, start)
            }),
    {
        let dealer_index = find_dealer(&self.players);
        let start_index = get_next_index(&self.players, dealer_index);
        let ghost orig = self.players@;
        let ghost n = self.players@.len() as int;
        let mut k: usize = 0;
        while k < start_index
            invariant
                0 <= k <= start_index < n,
                n == orig.len(),
                self.players@.len() == n,
                self.deck == old(self).deck,
                self.deals == old(self).deals,
                self.players@ == orig.subrange(k as int, n) + orig.subrange(0, k as int),
            decreases start_index - k,
        {
            let ghost prev = self.players@;
            proof {
                assert(orig.subrange(k as int, n).len() == n - k);
                assert(prev[0] == orig.subrange(k as int, n)[0]);
            }
            let front = self.players.remove(0);
            self.players.push(front);
            proof {
                assert(self.players@ == prev.remove(0).push(prev[0]));
                assert(prev[0] == orig[k as int]);
                assert forall|m: int| 0 <= m < n implies self.players@[m] == (orig.subrange(
                    k + 1,
                    n,
                ) + orig.subrange(0, k + 1))[m] by {
                    if m < n - k - 1 {
                        assert(self.players@[m] == prev[m + 1]);
                    }
                }
                assert(self.players@ =~= orig.subrange(k + 1, n) + orig.subrange(0, k + 1));
            }
            k = k + 1;
        }
        proof {
            if start_index == 0 {
                assert(self.players@ =~= orig.subrange(0, n) + orig.subrange(0, 0));
            }
        }
    }
}

/// Point weight of the rank-1-to-`n` run of a suit, in half-point units.
pub open spec fn spec_run_points(suit: CardSuits, n: int) -> int
    decreases n,
{
    if n <= 0 {
        0
    } else {
        spec_run_points(suit, n - 1) + spec_half_points(
            Card { rank: n as u8, suit: spec_suit(suit) },
        )
    }
}

/// Oudlers among the rank-1-to-`n` run of a suit.
pub open spec fn spec_run_oudlers(suit: CardSuits, n: int) -> int
    decreases n,
{
    if n <= 0 {
        0
    } else {
        spec_run_oudlers(suit, n - 1) + if super::card::spec_is_oudler(
            Card { rank: n as u8, suit: spec_suit(suit) },
        ) {
            1int
        } else {
            0int
        }
    }
}

proof fn lemma_run_totals(suit: CardSuits, n: int)
    requires
        0 <= n <= 22,
    ensures
        spec_total_half_points(spec_rank_run(suit, n)) == spec_run_points(suit, n),
        spec_oudler_count(spec_rank_run(suit, n)) == spec_run_oudlers(suit, n),
    decreases n,
{
    if n > 0 {
        assert(spec_rank_run(suit, n).drop_last() =~= spec_rank_run(suit, n - 1));
        assert(spec_rank_run(suit, n).last() == Card { rank: n as u8, suit: spec_suit(suit) });
        lemma_run_totals(suit, n - 1);
    }
}

/// The pack-wide totals: the 78 cards are worth 91 points (182 half
/// points); the trump suit alone is worth 23 points, each plain suit 17;
/// and the pack holds exactly three oudlers.
pub proof fn lemma_deck_totals()
    ensures
        spec_total_half_points(spec_full_deck()) == 182,
        spec_oudler_count(spec_full_deck()) == 3,
        spec_total_half_points(spec_rank_run(CardSuits::Trumps, 22)) == 46,
        spec_total_half_points(spec_rank_run(CardSuits::Clubs, 14)) == 34,
        spec_total_half_points(spec_rank_run(CardSuits::Diamonds, 14)) == 34,
        spec_total_half_points(spec_rank_run(CardSuits::Hearts, 14)) == 34,
        spec_total_half_points(spec_rank_run(CardSuits::Spades, 14)) == 34,
{
    reveal_with_fuel(spec_run_points, 23);
    reveal_with_fuel(spec_run_oudlers, 23);
    lemma_run_totals(CardSuits::Clubs, 14);
    lemma_run_totals(CardSuits::Diamonds, 14);
    lemma_run_totals(CardSuits::Hearts, 14);
    lemma_run_totals(CardSuits::Spades, 14);
    lemma_run_totals(CardSuits::Trumps, 22);
    assert(spec_run_points(CardSuits::Clubs, 14) == 34);
    assert(spec_run_points(CardSuits::Diamonds, 14) == 34);
    assert(spec_run_points(CardSuits::Hearts, 14) == 34);
    assert(spec_run_points(CardSuits::Spades, 14) == 34);
    assert(spec_run_points(CardSuits::Trumps, 22) == 46);
    assert(spec_run_oudlers(CardSuits::Clubs, 14) == 0);
    assert(spec_run_oudlers(CardSuits::Diamonds, 14) == 0);
    assert(spec_run_oudlers(CardSuits::Hearts, 14) == 0);
    assert(spec_run_oudlers(CardSuits::Spades, 14) == 0);
    assert(spec_run_oudlers(CardSuits::Trumps, 22) == 3);
    super::score::lemma_points_additive(
        spec_rank_run(CardSuits::Clubs, 14),
        spec_rank_run(CardSuits::Diamonds, 14),
    );
    super::score::lemma_points_additive(
        spec_rank_run(CardSuits::Clubs, 14) + spec_rank_run(CardSuits::Diamonds, 14),
        spec_rank_run(CardSuits::Hearts, 14),
    );
    super::score::lemma_points_additive(
        spec_rank_run(CardSuits::Clubs, 14) + spec_rank_run(CardSuits::Diamonds, 14)
            + spec_rank_run(CardSuits::Hearts, 14),
        spec_rank_run(CardSuits::Spades, 14),
    );
    super::score::lemma_points_additive(
        spec_rank_run(CardSuits::Clubs, 14) + spec_rank_run(CardSuits::Diamonds, 14)
            + spec_rank_run(CardSuits::Hearts, 14) + spec_rank_run(CardSuits::Spades, 14),
        spec_rank_run(CardSuits::Trumps, 22),
    );
}

} // verus!
