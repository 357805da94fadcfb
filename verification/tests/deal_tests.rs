use tarot_cli::common::deal::Deal;
use tarot_cli::common::game::Game;
use tarot_cli::common::utils::random_int_in_range;

#[test]
fn deals_the_whole_deck_out() {
    for n_players in 2..=5u8 {
        let mut game = Game::new(n_players);
        let deal = Deal::new(&mut game.players, &mut game.deck);

        let n_cards = deal
            .players
            .iter()
            .fold(0, |acc, player| acc + player.hand.cards.len())
            + deal.kitty.cards.len();
        assert_eq!(n_cards, 78);
        assert!(deal.kitty.cards.len() <= deal.kitty.max_size);
        assert!(deal.taker.is_none());
        assert!(deal.called_king.is_none());
        assert_eq!(deal.tricks.len(), 0);
    }
}

#[test]
fn deal_sizes_the_kitty_for_the_table() {
    for (n_players, expected_max_size) in [(2u8, 6), (4, 6), (5, 3)] {
        let mut game = Game::new(n_players);
        let deal = Deal::new(&mut game.players, &mut game.deck);
        assert_eq!(deal.kitty.max_size, expected_max_size);
    }
}

#[test]
fn random_draws_stay_in_range() {
    for _ in 0..100 {
        let r = random_int_in_range(1, 75);
        assert!((1..75).contains(&r));
    }
}
