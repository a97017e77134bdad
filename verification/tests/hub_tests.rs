use coindrafts::game::{GameMode, GameStatus, PriceSnapshot};
use coindrafts::hub::{hub_prize, CoinDraftsOperation, CoinDraftsState};
use coindrafts::messages::TraditionalLeaguesMessage;
use coindrafts::portfolio::CryptoHolding;

fn snap(id: &str, price: u64) -> PriceSnapshot {
    PriceSnapshot { crypto_id: id.to_string(), price_usd: price, timestamp: 0 }
}

fn holding(symbol: &str, alloc: u8) -> CryptoHolding {
    CryptoHolding { symbol: symbol.to_string(), allocation_percent: alloc }
}

fn hub() -> CoinDraftsState {
    CoinDraftsState::instantiate("league".to_string())
}

fn create_quick_game(state: &mut CoinDraftsState, max_players: u32, fee: u64) -> String {
    let (game_id, msgs) = state
        .create_game(GameMode::QuickMatch, "demo".to_string(), max_players, fee, 24, 1)
        .unwrap();
    assert!(msgs.is_empty());
    game_id
}

#[test]
fn create_game_mints_sequential_ids() {
    let mut state = hub();
    let a = create_quick_game(&mut state, 10, 1_000_000);
    let b = create_quick_game(&mut state, 10, 1_000_000);
    assert_eq!(a, "game_1");
    assert_eq!(b, "game_2");
    assert_eq!(state.games.len(), 2);
}

#[test]
fn create_game_rejects_bad_fee_and_duration() {
    let mut state = hub();
    assert!(state
        .create_game(GameMode::QuickMatch, "x".to_string(), 10, 1, 24, 1)
        .is_err());
    assert!(state
        .create_game(GameMode::QuickMatch, "x".to_string(), 10, 1_000_000, 0, 1)
        .is_err());
    assert!(state.games.is_empty());
}

#[test]
fn delegated_game_queues_creation_request() {
    let mut state = hub();
    let (game_id, msgs) = state
        .create_game(GameMode::TraditionalLeague, "big".to_string(), 100, 1_000_000, 168, 1)
        .unwrap();
    assert_eq!(msgs.len(), 1);
    assert_eq!(msgs[0].destination, "league");
    assert_eq!(state.games[0].status, GameStatus::WaitingForPlayers);
    assert_eq!(game_id, "game_1");
}

#[test]
fn double_registration_keeps_count_within_capacity() {
    // registering the same account twice for a contest with capacity 2
    let mut state = hub();
    let game_id = create_quick_game(&mut state, 2, 1_000_000);
    assert!(state
        .register_player(&game_id, "alice".to_string(), "Alice".to_string(), 2)
        .unwrap());
    assert!(state
        .register_player(&game_id, "bob".to_string(), "Bob".to_string(), 3)
        .unwrap());
    // second registration is accepted as an idempotent overwrite
    assert!(state
        .register_player(&game_id, "alice".to_string(), "Alicia".to_string(), 4)
        .unwrap());
    assert_eq!(state.games[0].player_count, 2);
    // a third distinct account is silently refused: the contest is full
    assert!(!state
        .register_player(&game_id, "carol".to_string(), "Carol".to_string(), 5)
        .unwrap());
    assert_eq!(state.games[0].player_count, 2);
    assert_eq!(state.players[0].name, "Alicia");
}

#[test]
fn register_unknown_game_fails() {
    let mut state = hub();
    assert!(state
        .register_player(&"game_9".to_string(), "a".to_string(), "A".to_string(), 1)
        .is_err());
}

#[test]
fn portfolio_must_sum_to_one_hundred() {
    let mut state = hub();
    let game_id = create_quick_game(&mut state, 10, 1_000_000);
    let bad = vec![holding("BTC", 60), holding("ETH", 30)];
    assert!(state
        .submit_portfolio(&game_id, "alice".to_string(), bad, 2)
        .is_err());
    assert!(state.portfolios.is_empty());
    let good = vec![holding("BTC", 60), holding("ETH", 40)];
    assert!(state
        .submit_portfolio(&game_id, "alice".to_string(), good, 2)
        .is_ok());
    assert_eq!(state.portfolios.len(), 1);
}

#[test]
fn resubmission_replaces_portfolio() {
    let mut state = hub();
    let game_id = create_quick_game(&mut state, 10, 1_000_000);
    let first = vec![holding("BTC", 100)];
    let second = vec![holding("ETH", 100)];
    state
        .submit_portfolio(&game_id, "alice".to_string(), first, 2)
        .unwrap();
    state
        .submit_portfolio(&game_id, "alice".to_string(), second, 3)
        .unwrap();
    assert_eq!(state.portfolios.len(), 1);
    assert_eq!(state.portfolios[0].holdings[0].symbol, "ETH");
}

#[test]
fn settling_an_open_game_changes_nothing() {
    // settling a contest that never started leaves its status unchanged
    let mut state = hub();
    let game_id = create_quick_game(&mut state, 10, 1_000_000);
    let good = vec![holding("BTC", 100)];
    state
        .submit_portfolio(&game_id, "alice".to_string(), good, 2)
        .unwrap();
    let outcome = state.end_game(&game_id, vec![snap("BTC", 10)], 9).unwrap();
    assert!(!outcome);
    assert_eq!(state.games[0].status, GameStatus::WaitingForPlayers);
    assert!(state.results.is_empty());
}

#[test]
fn prize_split_fifty_thirty_twenty() {
    // a pool of 1,000,000 micro-units split over the top three ranks
    assert_eq!(hub_prize(1_000_000, 1), 500_000);
    assert_eq!(hub_prize(1_000_000, 2), 300_000);
    assert_eq!(hub_prize(1_000_000, 3), 200_000);
    assert_eq!(hub_prize(1_000_000, 4), 0);
    assert_eq!(hub_prize(1_000_000, 100), 0);
}

#[test]
fn settlement_pays_exact_prizes_and_ranks() {
    let mut state = hub();
    // four portfolios at a 250,000 fee make a pool of exactly 1,000,000
    let game_id = create_quick_game(&mut state, 10, 250_000);
    for (account, symbol) in [("a", "up40"), ("b", "up30"), ("c", "up20"), ("d", "up10")] {
        state
            .register_player(&game_id, account.to_string(), account.to_string(), 2)
            .unwrap();
        state
            .submit_portfolio(&game_id, account.to_string(), vec![holding(symbol, 100)], 3)
            .unwrap();
    }
    let start = vec![
        snap("up40", 1_000_000),
        snap("up30", 1_000_000),
        snap("up20", 1_000_000),
        snap("up10", 1_000_000),
    ];
    let end = vec![
        snap("up40", 1_400_000),
        snap("up30", 1_300_000),
        snap("up20", 1_200_000),
        snap("up10", 1_100_000),
    ];
    assert!(state.start_game(&game_id, start, 4).unwrap());
    assert!(state.end_game(&game_id, end, 5).unwrap());
    assert_eq!(state.games[0].status, GameStatus::Completed);
    assert_eq!(state.results.len(), 4);
    let prizes: Vec<u64> = state.results.iter().map(|r| r.prize_usdc).collect();
    assert_eq!(prizes, vec![500_000, 300_000, 200_000, 0]);
    let ranks: Vec<u32> = state.results.iter().map(|r| r.rank).collect();
    assert_eq!(ranks, vec![1, 2, 3, 4]);
    let accounts: Vec<&str> = state
        .results
        .iter()
        .map(|r| r.player_account.as_str())
        .collect();
    assert_eq!(accounts, vec!["a", "b", "c", "d"]);
    assert_eq!(state.games[0].winners, vec!["a", "b", "c"]);
    // the winner's profile received the prize, a win and a game played
    assert_eq!(state.players[0].total_earnings_usdc, 500_000);
    assert_eq!(state.players[0].stats.games_won, 1);
    assert_eq!(state.players[0].stats.games_played, 1);
    // settlement happens exactly once: a second call is a no-op
    let again = state
        .end_game(&game_id, vec![snap("up40", 9_000_000)], 6)
        .unwrap();
    assert!(!again);
    assert_eq!(state.results.len(), 4);
    assert_eq!(state.players[0].total_earnings_usdc, 500_000);
}

#[test]
fn ties_break_by_submission_order() {
    let mut state = hub();
    let game_id = create_quick_game(&mut state, 10, 250_000);
    for account in ["late", "early"] {
        state
            .register_player(&game_id, account.to_string(), account.to_string(), 2)
            .unwrap();
    }
    // "late" submits first, so on equal scores it ranks first
    state
        .submit_portfolio(&game_id, "late".to_string(), vec![holding("flat", 100)], 3)
        .unwrap();
    state
        .submit_portfolio(&game_id, "early".to_string(), vec![holding("flat", 100)], 4)
        .unwrap();
    assert!(state
        .start_game(&game_id, vec![snap("flat", 1_000_000)], 5)
        .unwrap());
    assert!(state
        .end_game(&game_id, vec![snap("flat", 1_000_000)], 6)
        .unwrap());
    assert_eq!(state.results[0].player_account, "late");
    assert_eq!(state.results[1].player_account, "early");
}

#[test]
fn tournament_completion_applies_exactly_once() {
    // applying the same completion notification twice does not change
    // total earnings the second time
    let mut state = hub();
    let (game_id, _) = state
        .create_game(GameMode::TraditionalLeague, "t".to_string(), 100, 1_000_000, 168, 1)
        .unwrap();
    state
        .register_player(&game_id, "alice".to_string(), "Alice".to_string(), 2)
        .unwrap();
    let message = || TraditionalLeaguesMessage::TournamentCompleted {
        game_id: game_id.clone(),
        tournament_id: "trad-league-1".to_string(),
        winners: vec!["alice".to_string()],
        total_prize_pool: 900_000,
    };
    state.execute_message(message(), 10);
    assert_eq!(state.games[0].status, GameStatus::Completed);
    assert_eq!(state.players[0].total_earnings_usdc, 900_000);
    assert_eq!(state.players[0].stats.games_won, 1);
    state.execute_message(message(), 11);
    assert_eq!(state.players[0].total_earnings_usdc, 900_000);
    assert_eq!(state.players[0].stats.games_won, 1);
}

#[test]
fn tournament_created_activates_waiting_game() {
    let mut state = hub();
    let (game_id, _) = state
        .create_game(GameMode::TraditionalLeague, "t".to_string(), 100, 1_000_000, 168, 1)
        .unwrap();
    state.execute_message(
        TraditionalLeaguesMessage::TournamentCreated {
            game_id: game_id.clone(),
            tournament_id: "trad-league-1".to_string(),
            tournament_info: "ok".to_string(),
        },
        5,
    );
    assert_eq!(state.games[0].status, GameStatus::Active);
}

#[test]
fn unknown_message_targets_are_dropped() {
    let mut state = hub();
    state.execute_message(
        TraditionalLeaguesMessage::TournamentCompleted {
            game_id: "game_404".to_string(),
            tournament_id: "t".to_string(),
            winners: vec!["nobody".to_string()],
            total_prize_pool: 5,
        },
        1,
    );
    assert!(state.games.is_empty());
    assert!(state.players.is_empty());
}

#[test]
fn dispatcher_routes_operations() {
    let mut state = hub();
    let msgs = state.execute_operation(
        CoinDraftsOperation::CreateGame {
            mode: GameMode::QuickMatch,
            name: "routed".to_string(),
            max_players: 4,
            entry_fee_usdc: 1_000_000,
            duration_hours: 24,
        },
        "operator".to_string(),
        1,
    );
    assert!(msgs.is_empty());
    assert_eq!(state.total_games(), 1);
    let game_id = state.games[0].game_id.clone();
    state.execute_operation(
        CoinDraftsOperation::RegisterPlayer {
            game_id: game_id.clone(),
            player_name: "Alice".to_string(),
        },
        "alice".to_string(),
        2,
    );
    assert_eq!(state.games[0].player_count, 1);
    state.execute_operation(
        CoinDraftsOperation::SubmitPortfolio {
            game_id: game_id.clone(),
            cryptocurrencies: vec!["BTC".to_string(), "ETH".to_string()],
        },
        "alice".to_string(),
        3,
    );
    // two symbols split evenly sum to 100, so the submission is stored
    assert_eq!(state.game_portfolios(&game_id).len(), 1);
    state.execute_operation(
        CoinDraftsOperation::SubmitPortfolio {
            game_id: game_id.clone(),
            cryptocurrencies: vec![
                "BTC".to_string(),
                "ETH".to_string(),
                "SOL".to_string(),
            ],
        },
        "bob".to_string(),
        4,
    );
    // three symbols split to 33 each sum to 99 and are rejected
    assert_eq!(state.game_portfolios(&game_id).len(), 1);
    assert!(state.game(&game_id).is_some());
    assert!(state.game(&"game_9".to_string()).is_none());
}

#[test]
fn started_games_keep_their_baseline() {
    let mut state = hub();
    let game_id = create_quick_game(&mut state, 10, 1_000_000);
    assert!(state
        .start_game(&game_id, vec![snap("BTC", 5)], 2)
        .unwrap());
    // re-invocation with a different snapshot must not overwrite the baseline
    assert!(!state
        .start_game(&game_id, vec![snap("BTC", 9)], 3)
        .unwrap());
    match &state.games[0].start_prices {
        Some(prices) => assert_eq!(prices[0].price_usd, 5),
        None => panic!("baseline missing"),
    }
}

#[test]
fn settlement_needs_portfolios() {
    let mut state = hub();
    let game_id = create_quick_game(&mut state, 10, 1_000_000);
    assert!(state
        .start_game(&game_id, vec![snap("BTC", 5)], 2)
        .unwrap());
    // an active contest with no portfolios stays active
    let settled = state.end_game(&game_id, vec![snap("BTC", 6)], 3).unwrap();
    assert!(!settled);
    assert_eq!(state.games[0].status, GameStatus::Active);
    assert!(state.results.is_empty());
}

#[test]
fn registration_closes_once_active() {
    let mut state = hub();
    let (game_id, _) = state
        .create_game(GameMode::TraditionalLeague, "t".to_string(), 100, 1_000_000, 168, 1)
        .unwrap();
    state.execute_message(
        TraditionalLeaguesMessage::TournamentCreated {
            game_id: game_id.clone(),
            tournament_id: "trad-league-1".to_string(),
            tournament_info: "ok".to_string(),
        },
        2,
    );
    // the contest is no longer waiting for players, so registration is a
    // silent no-op
    assert!(!state
        .register_player(&game_id, "late".to_string(), "Late".to_string(), 3)
        .unwrap());
    assert_eq!(state.games[0].player_count, 0);
}
