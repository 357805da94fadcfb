use tarot_cli::common::bid::{compare_bids, taker_evaluation, Bid, Bids};
use tarot_cli::common::card::{Card, CardSuits};

#[test]
fn petite_compare_than_passe() {
    let previous_bid = Bids::Passe;
    let bid = Bids::Petite;
    assert!(compare_bids(&bid, &previous_bid));
}

#[test]
fn garde_compare_than_petite_and_passe() {
    let mut previous_bid = Bids::Passe;
    let bid = Bids::Garde;
    assert!(compare_bids(&bid, &previous_bid));

    previous_bid = Bids::Petite;
    assert!(compare_bids(&bid, &previous_bid));
}

#[test]
fn garde_sans_compare_than_garde_and_petite_and_passe() {
    let mut previous_bid = Bids::Passe;
    let bid = Bids::GardeSans;
    assert!(compare_bids(&bid, &previous_bid));

    previous_bid = Bids::Petite;
    assert!(compare_bids(&bid, &previous_bid));

    previous_bid = Bids::Garde;
    assert!(compare_bids(&bid, &previous_bid));
}

#[test]
fn garde_contre_compare_than_garde_sans_and_garde_and_petite_and_passe() {
    let mut previous_bid = Bids::Passe;
    let bid = Bids::GardeContre;
    assert!(compare_bids(&bid, &previous_bid));

    previous_bid = Bids::Petite;
    assert!(compare_bids(&bid, &previous_bid));

    previous_bid = Bids::Garde;
    assert!(compare_bids(&bid, &previous_bid));

    previous_bid = Bids::GardeSans;
    assert!(compare_bids(&bid, &previous_bid));
}

#[test]
fn passe_compares_only_with_passe() {
    assert!(compare_bids(&Bids::Passe, &Bids::Passe));
    assert!(!compare_bids(&Bids::Passe, &Bids::Petite));
    assert!(!compare_bids(&Bids::Passe, &Bids::Garde));
    assert!(!compare_bids(&Bids::Passe, &Bids::GardeSans));
    assert!(!compare_bids(&Bids::Passe, &Bids::GardeContre));
}

#[test]
fn no_bid_compares_over_itself_or_higher() {
    assert!(!compare_bids(&Bids::Petite, &Bids::Petite));
    assert!(!compare_bids(&Bids::Garde, &Bids::GardeSans));
    assert!(!compare_bids(&Bids::GardeSans, &Bids::GardeContre));
}

#[test]
fn computes_available_bids_by_bid() {
    let cases = [
        (Bids::Petite, 4),
        (Bids::Garde, 3),
        (Bids::GardeSans, 2),
        (Bids::GardeContre, 1),
        (Bids::Passe, 5),
    ];
    for (bid_name, expected_availables_bids_len) in cases {
        let bid = Bid::new(bid_name);
        assert_eq!(bid.get_available_bids().len(), expected_availables_bids_len);
    }
}

#[test]
fn available_bids_over_garde_contre_is_only_passe() {
    let bid = Bid::new(Bids::GardeContre);
    assert_eq!(bid.get_available_bids(), vec![Bids::Passe]);
}

#[test]
fn available_bids_keep_ladder_order() {
    let bid = Bid::new(Bids::Passe);
    assert_eq!(
        bid.get_available_bids(),
        vec![Bids::Petite, Bids::Garde, Bids::GardeSans, Bids::GardeContre, Bids::Passe]
    );
}

#[test]
fn bot_choose_takes_legal_suggestion() {
    // One oudler, 12.5 points in hand: 1 * (12.5 mod 5) = 2.5, a Petite.
    let hand = vec![
        Card::new(1, CardSuits::Trumps),
        Card::new(14, CardSuits::Clubs),
        Card::new(13, CardSuits::Clubs),
    ];
    let mut bid = Bid::new(Bids::Passe);
    assert_eq!(bid.bot_choose(&hand), Bids::Petite);
    assert_eq!(bid.current, Bids::Petite);

    // The same suggestion is no longer legal over a Garde: the bot passes.
    let mut bid = Bid::new(Bids::Garde);
    assert_eq!(bid.bot_choose(&hand), Bids::Passe);
    assert_eq!(bid.current, Bids::Garde);
}

#[test]
fn taker_evaluation_maps_bands() {
    // No oudler: evaluation 0, a Passe.
    let hand = vec![Card::new(14, CardSuits::Clubs)];
    assert_eq!(taker_evaluation(&hand), Bids::Passe);

    // One oudler, 12.5 points: 2.5, a Petite.
    let hand = vec![
        Card::new(1, CardSuits::Trumps),
        Card::new(14, CardSuits::Clubs),
        Card::new(13, CardSuits::Clubs),
    ];
    assert_eq!(taker_evaluation(&hand), Bids::Petite);

    // Two oudlers, 12.5 points: 5.0, a Garde.
    let hand = vec![
        Card::new(1, CardSuits::Trumps),
        Card::new(21, CardSuits::Trumps),
        Card::new(13, CardSuits::Clubs),
    ];
    assert_eq!(taker_evaluation(&hand), Bids::Garde);

    // Three oudlers, 13.5 points: 3 * 3.5 = 10.5, past the top band.
    let hand = vec![
        Card::new(1, CardSuits::Trumps),
        Card::new(21, CardSuits::Trumps),
        Card::new(22, CardSuits::Trumps),
    ];
    assert_eq!(taker_evaluation(&hand), Bids::GardeContre);
}
