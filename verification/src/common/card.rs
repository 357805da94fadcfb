//! Card and suit model: ranks, suits, trump and oudler status, point
//! weights (in half-point units) and the pairwise comparison that decides
//! which of two played cards is currently winning a trick.

use vstd::prelude::*;

verus! {

/// Highest rank of an ordinary suit: the King.
pub const KING_RANK: u8 = 14;
const QUEEN_RANK: u8 = 13;
const KNIGHT_RANK: u8 = 12;
const JACK_RANK: u8 = 11;
const LITTLE_RANK: u8 = 1;
const BIG_RANK: u8 = 21;
const FOOL_RANK: u8 = 22;

pub trait CardSuitsGetters {
    /// Whether this value stands for the trump suit.
    spec fn spec_is_trump(&self) -> bool;

    fn is_trump(&self) -> (b: bool)
        ensures
            b == self.spec_is_trump(),
    ;
}

#[derive(Debug, Clone, Copy, PartialEq, Eq, Structural)]
pub enum CardSuits {
    Clubs,
    Diamonds,
    Hearts,
    Spades,
    Trumps,
}

impl CardSuitsGetters for CardSuits {
    open spec fn spec_is_trump(&self) -> bool {
        *self is Trumps
    }

    fn is_trump(&self) -> (b: bool)
        ensures
            b == self.spec_is_trump(),
    {
        matches!(self, CardSuits::Trumps)
    }
}

/// The display glyph of a suit.
pub open spec fn spec_suit_icon(name: CardSuits) -> char {
    match name {
        CardSuits::Clubs => '\u{2663}',
        CardSuits::Diamonds => '\u{2666}',
        CardSuits::Spades => '\u{2660}',
        CardSuits::Hearts => '\u{2665}',
        CardSuits::Trumps => '*',
    }
}

/// The single-letter code of a suit, used in compact card identifiers.
pub open spec fn spec_suit_initial(name: CardSuits) -> char {
    match name {
        CardSuits::Clubs => 'C',
        CardSuits::Diamonds => 'D',
        CardSuits::Spades => 'S',
        CardSuits::Hearts => 'H',
        CardSuits::Trumps => 'T',
    }
}

#[derive(Debug, Clone, Copy, PartialEq, Eq, Structural)]
pub struct Suit {
    pub name: CardSuits,
    pub icon: char,
    pub initial: char,
}

/// The one well-formed `Suit` value for a given suit name.
pub open spec fn spec_suit(name: CardSuits) -> Suit {
    Suit { name, icon: spec_suit_icon(name), initial: spec_suit_initial(name) }
}

impl Suit {
    /// A `Suit` is well formed when its glyph and letter match its name.
    pub open spec fn wf(&self) -> bool {
        *self == spec_suit(self.name)
    }

    pub fn new(name: CardSuits) -> (s: Suit)
        ensures
            s == spec_suit(name),
    {
        let (icon, initial) = get_suit_data(name);
        Suit { name, icon, initial }
    }
}

impl CardSuitsGetters for Suit {
    open spec fn spec_is_trump(&self) -> bool {
        self.name is Trumps
    }

    fn is_trump(&self) -> (b: bool)
        ensures
            b == self.spec_is_trump(),
    {
        matches!(self.name, CardSuits::Trumps)
    }
}

/// Glyph and single-letter code of a suit name.
pub fn get_suit_data(name: CardSuits) -> (r: (char, char))
    ensures
        r.0 == spec_suit_icon(name),
        r.1 == spec_suit_initial(name),
{
    match name {
        CardSuits::Clubs => ('\u{2663}', 'C'),
        CardSuits::Diamonds => ('\u{2666}', 'D'),
        CardSuits::Spades => ('\u{2660}', 'S'),
        CardSuits::Hearts => ('\u{2665}', 'H'),
        CardSuits::Trumps => ('*', 'T'),
    }
}

/// Highest legal rank of a suit: 22 for trumps, 14 for the plain suits.
pub open spec fn suit_max_rank(name: CardSuits) -> int {
    if name is Trumps {
        22
    } else {
        14
    }
}

#[derive(Debug, Clone, Copy, PartialEq, Eq, Structural)]
pub struct Card {
    pub rank: u8,
    pub suit: Suit,
}

impl Card {
    /// A card is well formed when its suit is and its rank is in range.
    pub open spec fn wf(&self) -> bool {
        &&& self.suit.wf()
        &&& 1 <= self.rank <= suit_max_rank(self.suit.name)
    }

    pub open spec fn spec_is_trump(&self) -> bool {
        self.suit.name is Trumps
    }

    /// Out-of-range ranks are rejected at construction.
    pub fn new(rank: u8, suit: CardSuits) -> (c: Self)
        requires
            1 <= rank <= suit_max_rank(suit),
        ensures
            c == (Card { rank, suit: spec_suit(suit) }),
            c.wf(),
    {
        let suit = Suit::new(suit);
        Card { rank, suit }
    }
}

/// The three trump honour cards: the Petit (1), the 21 and the Fool (22).
pub open spec fn spec_is_oudler(c: Card) -> bool {
    c.spec_is_trump() && (c.rank == 1 || c.rank == 21 || c.rank == 22)
}

/// Point weight of a card, in half-point units (a King is 9, a low card 1).
pub open spec fn spec_half_points(c: Card) -> int {
    if c.spec_is_trump() {
        if spec_is_oudler(c) {
            9
        } else if 2 <= c.rank <= 20 {
            1
        } else {
            0
        }
    } else {
        if c.rank == 14 {
            9
        } else if c.rank == 13 {
            7
        } else if c.rank == 12 {
            5
        } else if c.rank == 11 {
            3
        } else if 1 <= c.rank <= 10 {
            1
        } else {
            0
        }
    }
}

/// Whether `a` beats `b` as the currently-best card of a trick whose called
/// suit is `played`  (`None` while the trick is empty).  A trump always
/// beats a plain card; two trumps compare by rank; a plain card wins only
/// from the called suit, and an off-suit discard never wins.
pub open spec fn spec_is_superior(a: Card, b: Card, played: Option<CardSuits>) -> bool {
    match played {
        Some(s) => {
            if a.spec_is_trump() {
                !b.spec_is_trump() || a.rank > b.rank
            } else if b.spec_is_trump() {
                false
            } else {
                a.suit.name == s && (b.suit.name == s ==> a.rank > b.rank)
            }
        },
        None => {
            if a.spec_is_trump() != b.spec_is_trump() {
                a.spec_is_trump()
            } else {
                a.rank > b.rank
            }
        },
    }
}

impl Card {
    pub fn is_oudler(&self) -> (b: bool)
        ensures
            b == spec_is_oudler(*self),
    {
        match (self.rank, self.suit.name) {
            (1 | 21 | 22, CardSuits::Trumps) => true,
            (_, _) => false,
        }
    }

    /// Point weight in half-point units.
    pub fn half_points(&self) -> (p: u8)
        ensures
            p == spec_half_points(*self),
    {
        match (self.rank, self.suit.name) {
            (LITTLE_RANK | BIG_RANK | FOOL_RANK, CardSuits::Trumps) => 9,
            (2..BIG_RANK, CardSuits::Trumps) => 1,
            (KING_RANK, _) => 9,
            (QUEEN_RANK, _) => 7,
            (KNIGHT_RANK, _) => 5,
            (JACK_RANK, _) => 3,
            (1..=10, _) => 1,
            (_, _) => 0,
        }
    }

    pub fn is_superior_than(&self, card: &Card, played_suit: Option<CardSuits>) -> (r: bool)
        ensures
            r == spec_is_superior(*self, *card, played_suit),
    {
        match played_suit {
            Some(played_suit) => {
                if self.suit.is_trump() {
                    if card.suit.is_trump() {
                        self.rank > card.rank
                    } else {
                        true
                    }
                } else if card.suit.is_trump() {
                    false
                } else {
                    if self.suit.name == played_suit && card.suit.name == played_suit {
                        self.rank > card.rank
                    } else if self.suit.name == played_suit {
                        true
                    } else {
                        false
                    }
                }
            },
            None => {
                if self.suit.is_trump() && card.suit.is_trump() {
                    self.rank > card.rank
                } else if self.suit.is_trump() {
                    true
                } else if card.suit.is_trump() {
                    false
                } else {
                    self.rank > card.rank
                }
            },
        }
    }
}

/// An oudler is always a trump.
pub proof fn lemma_oudler_is_trump(c: Card)
    ensures
        spec_is_oudler(c) ==> c.spec_is_trump(),
{
}

/// The decimal digit characters.
pub open spec fn spec_digit_char(d: int) -> char {
    if d == 0 {
        '0'
    } else if d == 1 {
        '1'
    } else if d == 2 {
        '2'
    } else if d == 3 {
        '3'
    } else if d == 4 {
        '4'
    } else if d == 5 {
        '5'
    } else if d == 6 {
        '6'
    } else if d == 7 {
        '7'
    } else if d == 8 {
        '8'
    } else {
        '9'
    }
}

/// A rank written out in decimal characters.
pub open spec fn spec_rank_chars(r: int) -> Seq<char> {
    if r < 10 {
        seq![spec_digit_char(r)]
    } else {
        seq![spec_digit_char(r / 10), spec_digit_char(r % 10)]
    }
}

fn digit_string(d: u8) -> (s: String)
    requires
        d <= 9,
    ensures
        s@ == seq![spec_digit_char(d as int)],
{
    match d {
        0 => {
            let s = String::from_str("0");
            proof {
                reveal_strlit("0");
                assert(s@ =~= seq![spec_digit_char(0)]);
            }
            s
        },
        1 => {
            let s = String::from_str("1");
            proof {
                reveal_strlit("1");
                assert(s@ =~= seq![spec_digit_char(1)]);
            }
            s
        },
        2 => {
            let s = String::from_str("2");
            proof {
                reveal_strlit("2");
                assert(s@ =~= seq![spec_digit_char(2)]);
            }
            s
        },
        3 => {
            let s = String::from_str("3");
            proof {
                reveal_strlit("3");
                assert(s@ =~= seq![spec_digit_char(3)]);
            }
            s
        },
        4 => {
            let s = String::from_str("4");
            proof {
                reveal_strlit("4");
                assert(s@ =~= seq![spec_digit_char(4)]);
            }
            s
        },
        5 => {
            let s = String::from_str("5");
            proof {
                reveal_strlit("5");
                assert(s@ =~= seq![spec_digit_char(5)]);
            }
            s
        },
        6 => {
            let s = String::from_str("6");
            proof {
                reveal_strlit("6");
                assert(s@ =~= seq![spec_digit_char(6)]);
            }
            s
        },
        7 => {
            let s = String::from_str("7");
            proof {
                reveal_strlit("7");
                assert(s@ =~= seq![spec_digit_char(7)]);
            }
            s
        },
        8 => {
            let s = String::from_str("8");
            proof {
                reveal_strlit("8");
                assert(s@ =~= seq![spec_digit_char(8)]);
            }
            s
        },
        _ => {
            let s = String::from_str("9");
            proof {
                reveal_strlit("9");
                assert(s@ =~= seq![spec_digit_char(9)]);
            }
            s
        },
    }
}

/// A rank as decimal text.
fn rank_string(rank: u8) -> (s: String)
    requires
        1 <= rank <= 22,
    ensures
        s@ == spec_rank_chars(rank as int),
{
    if rank < 10 {
        digit_string(rank)
    } else {
        let tens = digit_string(rank / 10);
        let ones = digit_string(rank % 10);
        let s = tens.concat(ones.as_str());
        proof {
            assert(s@ =~= spec_rank_chars(rank as int));
        }
        s
    }
}

/// Display name of a card: face names for the court cards, "Petit" and
/// "Fool" for the named oudlers, the rank in decimal otherwise.
pub open spec fn spec_display_name(c: Card) -> Seq<char> {
    if c.spec_is_trump() {
        if c.rank == 1 {
            "Petit"@
        } else if c.rank == 22 {
            "Fool"@
        } else {
            spec_rank_chars(c.rank as int)
        }
    } else {
        if c.rank == 14 {
            "King"@
        } else if c.rank == 13 {
            "Queen"@
        } else if c.rank == 12 {
            "Knight"@
        } else if c.rank == 11 {
            "Jack"@
        } else {
            spec_rank_chars(c.rank as int)
        }
    }
}

/// Compact identifier of a card: the suit letter, then the rank.
pub open spec fn spec_card_id(c: Card) -> Seq<char> {
    seq![spec_suit_initial(c.suit.name)] + spec_rank_chars(c.rank as int)
}

impl Card {
    /// Face name of the card.
    pub fn name(&self) -> (s: String)
        requires
            self.wf(),
        ensures
            s@ == spec_display_name(*self),
    {
        match (self.rank, self.suit.name) {
            (LITTLE_RANK, CardSuits::Trumps) => String::from_str("Petit"),
            (FOOL_RANK, CardSuits::Trumps) => String::from_str("Fool"),
            (KING_RANK, CardSuits::Clubs)
            | (KING_RANK, CardSuits::Spades)
            | (KING_RANK, CardSuits::Hearts)
            | (KING_RANK, CardSuits::Diamonds) => String::from_str("King"),
            (QUEEN_RANK, CardSuits::Clubs)
            | (QUEEN_RANK, CardSuits::Spades)
            | (QUEEN_RANK, CardSuits::Hearts)
            | (QUEEN_RANK, CardSuits::Diamonds) => String::from_str("Queen"),
            (KNIGHT_RANK, CardSuits::Clubs)
            | (KNIGHT_RANK, CardSuits::Spades)
            | (KNIGHT_RANK, CardSuits::Hearts)
            | (KNIGHT_RANK, CardSuits::Diamonds) => String::from_str("Knight"),
            (JACK_RANK, CardSuits::Clubs)
            | (JACK_RANK, CardSuits::Spades)
            | (JACK_RANK, CardSuits::Hearts)
            | (JACK_RANK, CardSuits::Diamonds) => String::from_str("Jack"),
            (_, _) => rank_string(self.rank),
        }
    }

    /// Stable short code of the card: suit letter and rank, used for
    /// equality, sorting and fixtures, never the display name.
    pub fn id(&self) -> (s: String)
        requires
            self.wf(),
        ensures
            s@ == spec_card_id(*self),
    {
        let initial = match self.suit.name {
            CardSuits::Clubs => String::from_str("C"),
            CardSuits::Diamonds => String::from_str("D"),
            CardSuits::Spades => String::from_str("S"),
            CardSuits::Hearts => String::from_str("H"),
            CardSuits::Trumps => String::from_str("T"),
        };
        proof {
            reveal_strlit("C");
            reveal_strlit("D");
            reveal_strlit("S");
            reveal_strlit("H");
            reveal_strlit("T");
            assert(initial@ =~= seq![spec_suit_initial(self.suit.name)]);
        }
        let rank = rank_string(self.rank);
        let s = initial.concat(rank.as_str());
        proof {
            assert(s@ =~= spec_card_id(*self));
        }
        s
    }
}

} // verus!
