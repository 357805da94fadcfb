//! Dealing a hand: cards leave the deck in chunks of three for the
//! players, one at a time for the kitty, until the deck is exhausted.
//! Whether a chunk goes to the kitty is drawn at random while the kitty
//! is short of its expected size.

use vstd::prelude::*;

use rand::Rng;

use super::card::Card;
use super::hand::Hand;
use super::kitty::{spec_kitty_expected_size, Kitty};
use super::player::Player;
use super::taker::Taker;
use super::trick::Trick;
use super::utils::{clone_cards, get_next_index};

verus! {

pub const DEAL_SIZE_PLAYERS: usize = 3;
pub const DEAL_SIZE_KITTY: usize = 1;

/// Where the next chunk of the deck goes.
#[derive(Debug, PartialEq, Eq, Structural, Clone, Copy)]
pub enum Dealing {
    Kitty,
    Player,
}

/// How many cards the next chunk holds.
pub fn get_deal_size(dealing: &Dealing) -> (n: usize)
    ensures
        n == match *dealing {
            Dealing::Kitty => 1int,
            Dealing::Player => 3int,
        },
{
    match dealing {
        Dealing::Kitty => DEAL_SIZE_KITTY,
        Dealing::Player => DEAL_SIZE_PLAYERS,
    }
}

/// Relies on `rand::Rng::gen_ratio`: true with chance two in five;
/// nothing is promised of any single outcome.
#[verifier::external_body]
fn draw_kitty_chance() -> bool {
    rand::thread_rng().gen_ratio(2, 5)
}

/// While the kitty is short of its expected size the receiver is drawn at
/// random; a full kitty always sends the chunk to a player.
pub fn draw_kitty_or_player(kitty: &Vec<Card>, kitty_expected_size: usize) -> (r: Dealing)
    ensures
        kitty@.len() >= kitty_expected_size ==> r == Dealing::Player,
{
    if kitty.len() < kitty_expected_size {
        if draw_kitty_chance() {
            Dealing::Kitty
        } else {
            Dealing::Player
        }
    } else {
        Dealing::Player
    }
}

/// One hand of the game: the dealt kitty, the players as they were dealt,
/// and what the auction and the tricks fill in later.
#[derive(Debug)]
pub struct Deal {
    pub kitty: Kitty,
    pub players: Vec<Player>,
    pub taker: Option<Taker>,
    pub tricks: Vec<Trick>,
    pub called_king: Option<Card>,
}

/// `b` holds the same player as `a`, cards compared by contents.
pub open spec fn spec_player_like(a: Player, b: Player) -> bool {
    &&& b.id == a.id
    &&& b.name == a.name
    &&& b.score == a.score
    &&& b.is_human == a.is_human
    &&& b.is_dealer == a.is_dealer
    &&& b.cards@ == a.cards@
    &&& b.picked_up_cards@ == a.picked_up_cards@
    &&& b.hand.cards@ == a.hand.cards@
    &&& b.hand.won_cards@ == a.hand.won_cards@
    &&& b.hand.side == a.hand.side
}

fn clone_player(p: &Player) -> (r: Player)
    ensures
        spec_player_like(*p, r),
{
    Player {
        id: p.id,
        name: p.name.clone(),
        score: p.score,
        is_human: p.is_human,
        is_dealer: p.is_dealer,
        cards: clone_cards(&p.cards),
        picked_up_cards: clone_cards(&p.picked_up_cards),
        hand: Hand {
            cards: clone_cards(&p.hand.cards),
            won_cards: clone_cards(&p.hand.won_cards),
            side: p.hand.side,
        },
    }
}

fn clone_players(players: &Vec<Player>) -> (r: Vec<Player>)
    ensures
        r@.len() == players@.len(),
        forall|i: int|
            0 <= i < players@.len() ==> spec_player_like(players@[i], #[trigger] r@[i]),
{
    let mut r: Vec<Player> = Vec::new();
    let mut i: usize = 0;
    while i < players.len()
        invariant
            0 <= i <= players@.len(),
            r@.len() == i,
            forall|j: int| 0 <= j < i ==> spec_player_like(players@[j], #[trigger] r@[j]),
        decreases players@.len() - i,
    {
        r.push(clone_player(&players[i]));
        i = i + 1;
    }
    r
}

impl Deal {
    /// Open a new hand: size the kitty for the table, deal the whole deck
    /// out, and record the dealt table with the auction still to come.
    pub fn new(players: &mut Vec<Player>, deck: &mut Vec<Card>) -> (d: Self)
        requires
            old(players)@.len() > 0,
        ensures
            final(deck)@ == old(deck)@,
            final(players)@.len() == old(players)@.len(),
            forall|i: int|
                0 <= i < final(players)@.len() ==> spec_same_player_but_hand_cards(
                    old(players)@[i],
                    #[trigger] final(players)@[i],
                ),
            d.kitty.max_size == spec_kitty_expected_size(old(players)@.len() as int),
            spec_hand_cards_count(final(players)@) + d.kitty.cards@.len() == old(deck)@.len(),
            d.kitty.cards@.len() <= d.kitty.max_size,
            d.players@.len() == final(players)@.len(),
            forall|i: int|
                0 <= i < d.players@.len() ==> spec_player_like(
                    final(players)@[i],
                    #[trigger] d.players@[i],
                ),
            d.taker is None,
            d.tricks@.len() == 0,
            d.called_king is None,
    {
        let mut kitty = Kitty::new(players.len());
        draw_cards(deck.as_slice(), players, &mut kitty);
        let dealt_players = clone_players(players);
        Deal { players: dealt_players, kitty, taker: None, tricks: Vec::new(), called_king: None }
    }
}

/// Everything of a player except the cards currently in hand.
pub open spec fn spec_same_player_but_hand_cards(a: Player, b: Player) -> bool {
    &&& b.id == a.id
    &&& b.name == a.name
    &&& b.score == a.score
    &&& b.is_human == a.is_human
    &&& b.is_dealer == a.is_dealer
    &&& b.cards == a.cards
    &&& b.picked_up_cards == a.picked_up_cards
    &&& b.hand.won_cards == a.hand.won_cards
    &&& b.hand.side == a.hand.side
}

/// Total number of cards held in hand around the table.
pub open spec fn spec_hand_cards_count(players: Seq<Player>) -> int
    decreases players.len(),
{
    if players.len() == 0 {
        0
    } else {
        spec_hand_cards_count(players.drop_last()) + players.last().hand.cards.len()
    }
}

proof fn lemma_hand_cards_count_zero(players: Seq<Player>)
    requires
        forall|i: int| 0 <= i < players.len() ==> (#[trigger] players[i]).hand.cards@.len() == 0,
    ensures
        spec_hand_cards_count(players) == 0,
    decreases players.len(),
{
    if players.len() > 0 {
        lemma_hand_cards_count_zero(players.drop_last());
    }
}

proof fn lemma_hand_cards_count_update(players: Seq<Player>, i: int, p: Player)
    requires
        0 <= i < players.len(),
    ensures
        spec_hand_cards_count(players.update(i, p)) == spec_hand_cards_count(players)
            - players[i].hand.cards.len() + p.hand.cards.len(),
    decreases players.len(),
{
    let updated = players.update(i, p);
    if i == players.len() - 1 {
        assert(updated.drop_last() =~= players.drop_last());
    } else {
        assert(updated.drop_last() =~= players.drop_last().update(i, p));
        assert(updated.last() == players.last());
        lemma_hand_cards_count_update(players.drop_last(), i, p);
    }
}

/// Clear every hand around the table before a new deal.
pub fn clear_cards(players: &mut Vec<Player>)
    ensures
        final(players)@.len() == old(players)@.len(),
        forall|i: int|
            0 <= i < final(players)@.len() ==> spec_same_player_but_hand_cards(
                old(players)@[i],
                #[trigger] final(players)@[i],
            ) && final(players)@[i].hand.cards@.len() == 0,
{
    let mut idx: usize = 0;
    while idx < players.len()
        invariant
            0 <= idx <= players@.len(),
            players@.len() == old(players)@.len(),
            forall|i: int|
                0 <= i < idx ==> spec_same_player_but_hand_cards(
                    old(players)@[i],
                    #[trigger] players@[i],
                ) && players@[i].hand.cards@.len() == 0,
            forall|i: int| idx <= i < players@.len() ==> #[trigger] players@[i] == old(players)@[i],
        decreases players@.len() - idx,
    {
        let ghost before = players@;
        let mut p = players.remove(idx);
        p.hand.cards = Vec::new();
        players.insert(idx, p);
        proof {
            assert(players@ =~= before.update(idx as int, p));
        }
        idx = idx + 1;
    }
}

/// Deal the whole deck out: chunks of three to the players in turn, single
/// cards to the kitty while it is short and chance sends one there.  Every
/// card of the deck ends in a hand or in the kitty.
pub fn draw_cards(deck: &[Card], players: &mut Vec<Player>, kitty: &mut Kitty)
    requires
        old(players)@.len() > 0,
    ensures
        final(players)@.len() == old(players)@.len(),
        forall|i: int|
            0 <= i < final(players)@.len() ==> spec_same_player_but_hand_cards(
                old(players)@[i],
                #[trigger] final(players)@[i],
            ),
        spec_hand_cards_count(final(players)@) + final(kitty).cards@.len() == deck@.len() + old(
            kitty,
        ).cards@.len(),
        final(kitty).max_size == old(kitty).max_size,
        old(kitty).cards@.len() >= old(kitty).max_size ==> final(kitty).cards@ == old(
            kitty,
        ).cards@,
        old(kitty).cards@.len() < old(kitty).max_size ==> final(kitty).cards@.len() <= old(
            kitty,
        ).max_size,
{
    let mut index: usize = 0;
    let mut dealing = Dealing::Player;
    let mut player_index: usize = 0;

    clear_cards(players);
    proof {
        lemma_hand_cards_count_zero(players@);
    }
    while index < deck.len()
        invariant
            0 <= index <= deck@.len(),
            players@.len() == old(players)@.len() > 0,
            player_index < players@.len(),
            forall|i: int|
                0 <= i < players@.len() ==> spec_same_player_but_hand_cards(
                    old(players)@[i],
                    #[trigger] players@[i],
                ),
            spec_hand_cards_count(players@) + kitty.cards@.len() == index + old(
                kitty,
            ).cards@.len(),
            kitty.max_size == old(kitty).max_size,
            old(kitty).cards@.len() >= old(kitty).max_size ==> kitty.cards@ == old(kitty).cards@,
            old(kitty).cards@.len() < old(kitty).max_size ==> kitty.cards@.len()
                <= old(kitty).max_size,
            dealing == Dealing::Kitty ==> kitty.cards@.len() < kitty.max_size,
        decreases deck@.len() - index,
    {
        let size = get_deal_size(&dealing);
        let remaining = deck.len() - index;
        let take = if size < remaining {
            size
        } else {
            remaining
        };
        match dealing {
            Dealing::Kitty => {
                kitty.cards.push(deck[index]);
            },
            Dealing::Player => {
                let ghost before = players@;
                let mut p = players.remove(player_index);
                let ghost p0 = p;
                let mut j: usize = 0;
                while j < take
                    invariant
                        0 <= j <= take,
                        index + take <= deck@.len() <= usize::MAX,
                        p.hand.cards@.len() == p0.hand.cards@.len() + j,
                        spec_same_player_but_hand_cards(p0, p),
                    decreases take - j,
                {
                    p.hand.cards.push(deck[index + j]);
                    j = j + 1;
                }
                players.insert(player_index, p);
                proof {
                    assert(players@ =~= before.update(player_index as int, p));
                    lemma_hand_cards_count_update(before, player_index as int, p);
                }
                player_index = get_next_index(players, player_index);
            },
        }
        index = index + take;
        dealing = draw_kitty_or_player(&kitty.cards, kitty.max_size);
    }
}

} // verus!
