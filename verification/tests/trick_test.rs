use tarot_cli::common::card::{Card, CardSuits};
use tarot_cli::common::trick::{allowed_cards_to_play, check_selected_card, Trick, TrickGetters};

fn trick_of(cards: Vec<Card>) -> Trick {
    let mut trick = Trick::default();
    for card in cards {
        trick.played_cards.push(card);
    }
    trick
}

#[test]
fn trick_get_best_played_card_index() {
    let cases: Vec<(Vec<Card>, Option<usize>)> = vec![
        (Vec::new(), None),
        (vec![Card::new(2, CardSuits::Clubs), Card::new(14, CardSuits::Clubs)], Some(1)),
        (
            vec![
                Card::new(14, CardSuits::Clubs),
                Card::new(2, CardSuits::Trumps),
                Card::new(2, CardSuits::Clubs),
                Card::new(2, CardSuits::Hearts),
            ],
            Some(1),
        ),
        (
            vec![
                Card::new(8, CardSuits::Clubs),
                Card::new(10, CardSuits::Clubs),
                Card::new(14, CardSuits::Clubs),
                Card::new(2, CardSuits::Clubs),
                Card::new(1, CardSuits::Clubs),
            ],
            Some(2),
        ),
        (
            vec![
                Card::new(8, CardSuits::Trumps),
                Card::new(10, CardSuits::Trumps),
                Card::new(14, CardSuits::Trumps),
                Card::new(2, CardSuits::Trumps),
                Card::new(1, CardSuits::Trumps),
            ],
            Some(2),
        ),
        (vec![Card::new(2, CardSuits::Trumps), Card::new(2, CardSuits::Clubs)], Some(0)),
    ];
    for (played_cards, expected_index) in cases {
        let trick = trick_of(played_cards);
        assert_eq!(trick.get_best_played_card_index(trick.played_suit()), expected_index);
    }
}

#[test]
fn empty_trick_has_no_best_card() {
    let trick = Trick::default();
    assert_eq!(trick.get_best_played_card_index(None), None);
    assert_eq!(trick.played_suit(), None);
}

#[test]
fn a_low_trump_beats_the_led_suit() {
    // Called suit Clubs: the lone trump wins despite its low rank.
    let trick = trick_of(vec![
        Card::new(14, CardSuits::Clubs),
        Card::new(2, CardSuits::Trumps),
        Card::new(2, CardSuits::Clubs),
        Card::new(2, CardSuits::Hearts),
    ]);
    assert_eq!(trick.get_best_played_card_index(trick.played_suit()), Some(1));
}

#[test]
fn check_selected_card_in_his_context() {
    let hand = vec![
        Card::new(14, CardSuits::Clubs),
        Card::new(2, CardSuits::Trumps),
        Card::new(2, CardSuits::Clubs),
        Card::new(2, CardSuits::Hearts),
    ];
    let err = Err("Selected card is not allowed to be played");

    // Leading: anything may open the trick, but only from the hand.
    let empty = trick_of(Vec::new());
    assert_eq!(check_selected_card(&empty, &hand, &Card::new(14, CardSuits::Hearts)), err);
    assert_eq!(check_selected_card(&empty, &hand, &Card::new(14, CardSuits::Clubs)), Ok(true));

    // A club was led: follow suit while a club is held.
    let club_led = trick_of(vec![Card::new(8, CardSuits::Clubs)]);
    assert_eq!(check_selected_card(&club_led, &hand, &Card::new(14, CardSuits::Clubs)), Ok(true));
    assert_eq!(check_selected_card(&club_led, &hand, &Card::new(2, CardSuits::Hearts)), err);

    // A trump was led: the held trump must go, not a plain card.
    let trump_led = trick_of(vec![Card::new(8, CardSuits::Trumps)]);
    assert_eq!(check_selected_card(&trump_led, &hand, &Card::new(2, CardSuits::Hearts)), err);
    assert_eq!(check_selected_card(&trump_led, &hand, &Card::new(2, CardSuits::Trumps)), Ok(true));

    // Holding a higher trump, the lower one no longer overtakes.
    let strong_hand = vec![
        Card::new(14, CardSuits::Trumps),
        Card::new(2, CardSuits::Trumps),
        Card::new(2, CardSuits::Clubs),
        Card::new(2, CardSuits::Hearts),
    ];
    assert_eq!(
        check_selected_card(&trump_led, &strong_hand, &Card::new(14, CardSuits::Trumps)),
        Ok(true)
    );
    assert_eq!(
        check_selected_card(&trump_led, &strong_hand, &Card::new(2, CardSuits::Trumps)),
        err
    );

    // No trump, no club in hand: discard freely.
    let weak_hand = vec![Card::new(2, CardSuits::Clubs), Card::new(2, CardSuits::Hearts)];
    assert_eq!(check_selected_card(&trump_led, &weak_hand, &Card::new(2, CardSuits::Hearts)), Ok(true));
}

#[test]
fn following_suit_is_compulsory() {
    // Holding a club while a club is led, a heart is illegal and the club
    // is legal.
    let hand = vec![
        Card::new(14, CardSuits::Clubs),
        Card::new(2, CardSuits::Trumps),
        Card::new(2, CardSuits::Clubs),
        Card::new(2, CardSuits::Hearts),
    ];
    let trick = trick_of(vec![Card::new(8, CardSuits::Clubs)]);
    let allowed = allowed_cards_to_play(&trick, &hand);
    assert!(allowed.contains(&Card::new(14, CardSuits::Clubs)));
    assert!(allowed.contains(&Card::new(2, CardSuits::Clubs)));
    assert!(!allowed.contains(&Card::new(2, CardSuits::Hearts)));
    assert!(!allowed.contains(&Card::new(2, CardSuits::Trumps)));
}

#[test]
fn any_held_trump_goes_when_none_overtakes() {
    // Trump-8 led; only Trump-2 (lower) and Club-2 held: the trump is
    // legal even though it cannot overtake, the plain card is not.
    let hand = vec![Card::new(2, CardSuits::Trumps), Card::new(2, CardSuits::Clubs)];
    let trick = trick_of(vec![Card::new(8, CardSuits::Trumps)]);
    let allowed = allowed_cards_to_play(&trick, &hand);
    assert_eq!(allowed, vec![Card::new(2, CardSuits::Trumps)]);
}

#[test]
fn play_moves_a_legal_card_and_rejects_the_rest() {
    let mut trick = trick_of(vec![Card::new(8, CardSuits::Clubs)]);
    let mut hand = vec![Card::new(2, CardSuits::Hearts), Card::new(14, CardSuits::Clubs)];

    // The heart does not follow suit: rejected, nothing moves.
    assert!(trick.play(&mut hand, 0).is_err());
    assert_eq!(hand.len(), 2);
    assert_eq!(trick.played_cards.len(), 1);

    // The club follows suit: it leaves the hand and joins the trick.
    assert!(trick.play(&mut hand, 1).is_ok());
    assert_eq!(hand, vec![Card::new(2, CardSuits::Hearts)]);
    assert_eq!(trick.played_cards.last(), Some(&Card::new(14, CardSuits::Clubs)));
}

#[test]
fn empty_trick_allows_the_whole_hand() {
    let hand = vec![Card::new(2, CardSuits::Trumps), Card::new(2, CardSuits::Clubs)];
    let trick = trick_of(Vec::new());
    assert_eq!(allowed_cards_to_play(&trick, &hand), hand);
}
