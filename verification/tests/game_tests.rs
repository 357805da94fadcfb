use tarot_cli::common::card::{Card, CardSuitsGetters};
use tarot_cli::common::game::{create_deck, create_players, update_dealer, Game};
use tarot_cli::common::player::Player;

#[test]
fn deck_has_78_cards() {
    let game = Game::new(4);
    assert_eq!(game.deck.len(), 78);
}

#[test]
fn deck_contains_22_trump_cards() {
    let game = Game::new(4);
    let trump_cards = game.deck.iter().filter(|c| c.suit.is_trump()).count();
    assert_eq!(trump_cards, 22);
}

#[test]
fn deck_contains_5_different_suits() {
    let game = Game::new(4);
    let mut initials = game.deck.iter().map(|c| c.suit.initial).collect::<Vec<char>>();
    initials.sort();
    initials.dedup();
    assert_eq!(initials.len(), 5);
}

#[test]
fn deck_contains_14_cards_by_suit() {
    let game = Game::new(4);
    for initial in ['C', 'D', 'H', 'S'] {
        assert_eq!(game.deck.iter().filter(|c| c.suit.initial == initial).count(), 14);
    }
}

#[test]
fn shuffling_keeps_the_same_cards() {
    // Whatever order the shuffle picked, the pack holds the same 78 ids.
    let mut ids = create_deck().iter().map(|c| c.id()).collect::<Vec<String>>();
    ids.sort();
    ids.dedup();
    assert_eq!(ids.len(), 78);
}

#[test]
fn split_deck_conserves_original_size_of_deck() {
    let mut game = Game::new(4);
    let original_len = game.deck.len();
    game.split_deck();
    assert_eq!(original_len, game.deck.len());
}

#[test]
fn split_deck_changes_the_order_of_cards() {
    let mut game = Game::new(4);
    let first_card = game.deck.first().cloned().unwrap();
    let last_card = game.deck.last().cloned().unwrap();
    game.split_deck();
    assert_ne!(first_card.id(), game.deck.first().unwrap().id());
    assert_ne!(last_card.id(), game.deck.last().unwrap().id());
}

#[test]
fn create_the_right_number_of_player_default() {
    let game = Game::default();
    assert_eq!(game.players.len(), 4);
}

#[test]
fn create_the_expected_number_of_players() {
    for n in 2..=5u8 {
        let players = create_players(n);
        assert_eq!(players.len(), n as usize);
    }
}

#[test]
fn set_only_one_dealer() {
    let players = create_players(4);
    assert_eq!(players.iter().filter(|p| p.is_dealer).count(), 1);
}

#[test]
fn players_are_named_in_seat_order() {
    let players = create_players(3);
    assert_eq!(players[0].name, "Player 1");
    assert_eq!(players[1].name, "Player 2");
    assert_eq!(players[2].name, "Player 3");
    assert!(players[0].is_human);
    assert!(!players[1].is_human);
}

#[test]
fn update_dealer_is_next_player() {
    let mut players: Vec<Player> = (1..=4u8)
        .map(|i| Player::new(format!("Player {}", i), i))
        .collect();
    players[1].is_dealer = true;

    assert_eq!(players[1].is_dealer, true);
    update_dealer(&mut players);
    assert_eq!(players[2].is_dealer, true);
    update_dealer(&mut players);
    assert_eq!(players[3].is_dealer, true);
    update_dealer(&mut players);
    assert_eq!(players[0].is_dealer, true);
}

#[test]
fn reorder_players_starts_after_the_dealer() {
    let mut game = Game::new(4);
    for p in game.players.iter_mut() {
        p.is_dealer = false;
    }
    game.players[1].is_dealer = true;
    game.reorder_players();
    assert_eq!(game.players[0].name, "Player 3");
    assert_eq!(game.players[3].name, "Player 2");
}

#[test]
fn collect_deck_takes_hands_or_won_piles() {
    let mut game = Game::new(2);
    game.players[0].hand.cards = vec![Card::new(2, tarot_cli::common::card::CardSuits::Clubs)];
    game.players[1].hand.won_cards = vec![
        Card::new(3, tarot_cli::common::card::CardSuits::Hearts),
        Card::new(4, tarot_cli::common::card::CardSuits::Hearts),
    ];
    let players = game.players.clone();
    game.collect_deck(&players);
    assert_eq!(game.deck.len(), 3);
    assert_eq!(game.deck[0].id(), "C2");
    assert_eq!(game.deck[1].id(), "H3");
    assert_eq!(game.deck[2].id(), "H4");
}
