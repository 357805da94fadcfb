use tarot_cli::common::card::{Card, CardSuits, CardSuitsGetters, Suit};

#[test]
fn card_is_superior_than() {
    let cases: Vec<(Card, Card, Option<CardSuits>, bool)> = vec![
        (Card::new(2, CardSuits::Trumps), Card::new(5, CardSuits::Hearts), Some(CardSuits::Hearts), true),
        (Card::new(2, CardSuits::Trumps), Card::new(5, CardSuits::Hearts), Some(CardSuits::Clubs), true),
        (Card::new(2, CardSuits::Hearts), Card::new(5, CardSuits::Hearts), Some(CardSuits::Hearts), false),
        (Card::new(2, CardSuits::Hearts), Card::new(5, CardSuits::Clubs), Some(CardSuits::Hearts), true),
        (Card::new(2, CardSuits::Hearts), Card::new(5, CardSuits::Trumps), Some(CardSuits::Clubs), false),
        (Card::new(2, CardSuits::Trumps), Card::new(5, CardSuits::Trumps), Some(CardSuits::Clubs), false),
        (Card::new(2, CardSuits::Trumps), Card::new(5, CardSuits::Hearts), None, true),
        (Card::new(2, CardSuits::Trumps), Card::new(5, CardSuits::Clubs), None, true),
        (Card::new(2, CardSuits::Hearts), Card::new(5, CardSuits::Trumps), None, false),
        (Card::new(2, CardSuits::Hearts), Card::new(5, CardSuits::Clubs), None, false),
        (Card::new(2, CardSuits::Trumps), Card::new(5, CardSuits::Trumps), None, false),
        (Card::new(2, CardSuits::Hearts), Card::new(5, CardSuits::Hearts), None, false),
    ];
    for (card_1, card_2, played_suit, expected) in cases {
        assert_eq!(card_1.is_superior_than(&card_2, played_suit), expected);
    }
}

#[test]
fn oudlers_are_the_three_named_trumps() {
    assert!(Card::new(1, CardSuits::Trumps).is_oudler());
    assert!(Card::new(21, CardSuits::Trumps).is_oudler());
    assert!(Card::new(22, CardSuits::Trumps).is_oudler());
    assert!(!Card::new(2, CardSuits::Trumps).is_oudler());
    assert!(!Card::new(1, CardSuits::Clubs).is_oudler());
    assert!(!Card::new(14, CardSuits::Hearts).is_oudler());
}

#[test]
fn every_oudler_is_a_trump() {
    for suit in [
        CardSuits::Clubs,
        CardSuits::Diamonds,
        CardSuits::Hearts,
        CardSuits::Spades,
        CardSuits::Trumps,
    ] {
        let top = if suit.is_trump() { 22 } else { 14 };
        for rank in 1..=top {
            let card = Card::new(rank, suit);
            if card.is_oudler() {
                assert!(card.suit.is_trump());
            }
        }
    }
}

#[test]
fn half_points_follow_the_scale() {
    assert_eq!(Card::new(1, CardSuits::Trumps).half_points(), 9);
    assert_eq!(Card::new(21, CardSuits::Trumps).half_points(), 9);
    assert_eq!(Card::new(22, CardSuits::Trumps).half_points(), 9);
    assert_eq!(Card::new(14, CardSuits::Trumps).half_points(), 1);
    assert_eq!(Card::new(2, CardSuits::Trumps).half_points(), 1);
    assert_eq!(Card::new(14, CardSuits::Clubs).half_points(), 9);
    assert_eq!(Card::new(13, CardSuits::Spades).half_points(), 7);
    assert_eq!(Card::new(12, CardSuits::Hearts).half_points(), 5);
    assert_eq!(Card::new(11, CardSuits::Diamonds).half_points(), 3);
    assert_eq!(Card::new(10, CardSuits::Clubs).half_points(), 1);
    assert_eq!(Card::new(1, CardSuits::Clubs).half_points(), 1);
}

#[test]
fn display_names_follow_the_faces() {
    assert_eq!(Card::new(1, CardSuits::Trumps).name(), "Petit");
    assert_eq!(Card::new(22, CardSuits::Trumps).name(), "Fool");
    assert_eq!(Card::new(21, CardSuits::Trumps).name(), "21");
    assert_eq!(Card::new(14, CardSuits::Clubs).name(), "King");
    assert_eq!(Card::new(13, CardSuits::Hearts).name(), "Queen");
    assert_eq!(Card::new(12, CardSuits::Spades).name(), "Knight");
    assert_eq!(Card::new(11, CardSuits::Diamonds).name(), "Jack");
    assert_eq!(Card::new(7, CardSuits::Clubs).name(), "7");
    assert_eq!(Card::new(14, CardSuits::Trumps).name(), "14");
}

#[test]
fn card_ids_are_letter_then_rank() {
    assert_eq!(Card::new(14, CardSuits::Clubs).id(), "C14");
    assert_eq!(Card::new(2, CardSuits::Diamonds).id(), "D2");
    assert_eq!(Card::new(7, CardSuits::Hearts).id(), "H7");
    assert_eq!(Card::new(13, CardSuits::Spades).id(), "S13");
    assert_eq!(Card::new(22, CardSuits::Trumps).id(), "T22");
}

#[test]
fn suits_carry_their_glyph_and_letter() {
    let clubs = Suit::new(CardSuits::Clubs);
    assert_eq!(clubs.initial, 'C');
    assert_eq!(clubs.icon, '\u{2663}');
    assert!(!clubs.is_trump());
    let trumps = Suit::new(CardSuits::Trumps);
    assert_eq!(trumps.initial, 'T');
    assert_eq!(trumps.icon, '*');
    assert!(trumps.is_trump());
}
