use tarot_cli::common::card::{Card, CardSuits};
use tarot_cli::common::kitty::{is_kitty_eligible, Kitty};

#[test]
fn get_max_size_kitty_computes_correctly() {
    let cases = [(1, 0), (2, 6), (3, 6), (4, 6), (5, 3), (6, 3), (7, 3)];
    for (n_players, expected_max_size) in cases {
        let kitty = Kitty::new(n_players);
        assert_eq!(kitty.max_size, expected_max_size);
    }
}

#[test]
fn kings_and_oudlers_are_not_kitty_eligible() {
    assert!(!is_kitty_eligible(&Card::new(14, CardSuits::Clubs)));
    assert!(!is_kitty_eligible(&Card::new(14, CardSuits::Diamonds)));
    assert!(!is_kitty_eligible(&Card::new(14, CardSuits::Hearts)));
    assert!(!is_kitty_eligible(&Card::new(14, CardSuits::Spades)));
    assert!(!is_kitty_eligible(&Card::new(1, CardSuits::Trumps)));
    assert!(!is_kitty_eligible(&Card::new(21, CardSuits::Trumps)));
    assert!(!is_kitty_eligible(&Card::new(22, CardSuits::Trumps)));
    assert!(is_kitty_eligible(&Card::new(2, CardSuits::Clubs)));
    assert!(is_kitty_eligible(&Card::new(13, CardSuits::Hearts)));
    assert!(is_kitty_eligible(&Card::new(14, CardSuits::Trumps)));
}

#[test]
fn composing_rejects_kings_and_oudlers() {
    let mut kitty = Kitty::new(4);
    let mut hand = vec![
        Card::new(14, CardSuits::Clubs),
        Card::new(1, CardSuits::Trumps),
        Card::new(22, CardSuits::Trumps),
        Card::new(2, CardSuits::Clubs),
    ];

    // The king and both oudlers never enter the kitty.
    assert!(kitty.compose_select(&mut hand, 0).is_err());
    assert!(kitty.compose_select(&mut hand, 1).is_err());
    assert!(kitty.compose_select(&mut hand, 2).is_err());
    assert_eq!(kitty.cards.len(), 0);
    assert_eq!(hand.len(), 4);

    // The plain low card is accepted and moves out of the hand.
    assert!(kitty.compose_select(&mut hand, 3).is_ok());
    assert_eq!(kitty.cards, vec![Card::new(2, CardSuits::Clubs)]);
    assert_eq!(hand.len(), 3);
}

#[test]
fn composing_stops_at_the_kitty_size() {
    // A three-card kitty (five players) takes no fourth card.
    let mut kitty = Kitty::new(5);
    let mut hand = vec![
        Card::new(2, CardSuits::Clubs),
        Card::new(3, CardSuits::Clubs),
        Card::new(4, CardSuits::Clubs),
        Card::new(5, CardSuits::Clubs),
    ];
    assert!(kitty.compose_select(&mut hand, 0).is_ok());
    assert!(kitty.compose_select(&mut hand, 0).is_ok());
    assert!(kitty.compose_select(&mut hand, 0).is_ok());
    assert!(kitty.compose_select(&mut hand, 0).is_err());
    assert_eq!(kitty.cards.len(), 3);
    assert_eq!(hand, vec![Card::new(5, CardSuits::Clubs)]);
}
