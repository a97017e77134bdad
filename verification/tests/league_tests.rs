use coindrafts::game::PriceSnapshot;
use coindrafts::league::{
    league_prize, PriceData, ScoringEngine, TournamentPortfolio, TournamentStatus, TournamentType,
};
use coindrafts::messages::CoinDraftsMessage;
use coindrafts::tournament::{TraditionalLeaguesResponse, TraditionalLeaguesState};

fn snap(id: &str, price: u64) -> PriceSnapshot {
    PriceSnapshot { crypto_id: id.to_string(), price_usd: price, timestamp: 0 }
}

fn picks(symbols: &[&str]) -> TournamentPortfolio {
    TournamentPortfolio {
        crypto_picks: symbols.iter().map(|s| s.to_string()).collect(),
        strategy_notes: None,
    }
}

#[test]
fn mock_prices_have_expected_changes() {
    let prices = PriceData::get_mock_prices();
    assert_eq!(prices.len(), 5);
    assert_eq!(prices[0].symbol, "BTC");
    assert_eq!(prices[0].start_price, 45_000_000_000);
    assert_eq!(prices[0].end_price, 46_800_000_000);
    assert_eq!(prices[0].percentage_change, 40_000);
    assert_eq!(prices[3].symbol, "SOL");
    assert_eq!(prices[3].percentage_change, -50_000);
}

#[test]
fn position_weights_run_five_to_one() {
    let prices = PriceData::get_mock_prices();
    let portfolio = picks(&["BTC", "ETH", "ADA", "SOL", "DOT"]);
    // 40000*5 + 50000*4 + 44000*3 + (-50000)*2 + 59000*1
    let expected = 200_000 + 200_000 + 132_000 - 100_000 + 59_000;
    assert_eq!(
        ScoringEngine::calculate_portfolio_performance(&portfolio, &prices),
        expected
    );
}

#[test]
fn unknown_picks_score_zero() {
    let prices = PriceData::get_mock_prices();
    let portfolio = picks(&["NOPE"]);
    assert_eq!(ScoringEngine::calculate_portfolio_performance(&portfolio, &prices), 0);
}

#[test]
fn legacy_scoring_uses_equal_weights() {
    let prices = PriceData::get_mock_prices();
    let portfolio = picks(&["BTC", "ETH"]);
    // equal weight 50: (40000*50)/100 + (50000*50)/100
    assert_eq!(
        ScoringEngine::calculate_portfolio_performance_legacy(&portfolio, &prices),
        45_000
    );
}

#[test]
fn league_prize_sixty_thirty_ten() {
    assert_eq!(league_prize(1_000_000, 1), 600_000);
    assert_eq!(league_prize(1_000_000, 2), 300_000);
    assert_eq!(league_prize(1_000_000, 3), 100_000);
    assert_eq!(league_prize(1_000_000, 4), 0);
}

#[test]
fn leaderboard_ranks_and_pays() {
    let prices = PriceData::get_mock_prices();
    let portfolios = vec![
        ("slow".to_string(), picks(&["ADA"])),
        ("fast".to_string(), picks(&["ETH"])),
    ];
    let board = ScoringEngine::calculate_leaderboard(portfolios, &prices, 1_000_000);
    assert_eq!(board.len(), 2);
    assert_eq!(board[0].player_account, "fast");
    assert_eq!(board[0].rank, 1);
    assert_eq!(board[0].total_return, 250_000);
    assert_eq!(board[0].winning_amount, 600_000);
    assert_eq!(board[1].player_account, "slow");
    assert_eq!(board[1].rank, 2);
    assert_eq!(board[1].winning_amount, 300_000);
}

#[test]
fn tournament_lifecycle_settles_and_notifies_hub() {
    let mut league = TraditionalLeaguesState::instantiate();
    // the hub asks for a tournament; the engine links it and confirms
    let replies = league.execute_message(
        "hub".to_string(),
        CoinDraftsMessage::CreateTournament {
            game_id: "game_1".to_string(),
            tournament_name: "spring".to_string(),
            entry_fee_usdc: 500_000,
            max_participants: 10,
        },
        1,
    );
    assert_eq!(replies.len(), 1);
    assert_eq!(replies[0].destination, "hub");
    let tid = "trad-league-1".to_string();
    assert_eq!(league.tournaments[0].id, tid);
    assert_eq!(league.tournaments[0].status, TournamentStatus::Registration);

    // two registrations auto-start the first round
    match league.register_for_tournament(&tid, "alice".to_string(), 2) {
        TraditionalLeaguesResponse::PlayerRegistered { success } => assert!(success),
        _ => panic!("unexpected response"),
    }
    match league.register_for_tournament(&tid, "bob".to_string(), 3) {
        TraditionalLeaguesResponse::PlayerRegistered { success } => assert!(success),
        _ => panic!("unexpected response"),
    }
    assert_eq!(league.tournaments[0].status, TournamentStatus::InProgress);
    assert_eq!(league.tournaments[0].current_round, 1);
    assert_eq!(league.tournaments[0].current_participants, 2);

    league.submit_portfolio(tid.clone(), 1, picks(&["BTC"]), "alice".to_string());
    league.submit_portfolio(tid.clone(), 1, picks(&["SOL"]), "bob".to_string());

    // the auto-started tournament still accepts its baseline snapshot
    match league.start_tournament(&tid, vec![snap("BTC", 1_000_000), snap("SOL", 1_000_000)], 4) {
        TraditionalLeaguesResponse::TournamentStarted { success, .. } => assert!(success),
        _ => panic!("unexpected response"),
    }

    let (response, messages) = league.end_tournament(
        &tid,
        vec![snap("BTC", 1_200_000), snap("SOL", 900_000)],
        5,
    );
    match response {
        TraditionalLeaguesResponse::TournamentEnded { success, winners } => {
            assert!(success);
            assert_eq!(winners, vec!["alice".to_string(), "bob".to_string()]);
        },
        _ => panic!("unexpected response"),
    }
    assert_eq!(league.tournaments[0].status, TournamentStatus::Completed);
    assert_eq!(league.results.len(), 1);
    // the completion notification carries the winners and the pool
    assert_eq!(messages.len(), 1);
    assert_eq!(messages[0].destination, "hub");
}

#[test]
fn oversized_tournament_portfolio_is_rejected() {
    let mut league = TraditionalLeaguesState::instantiate();
    let response = league.submit_portfolio(
        "trad-league-1".to_string(),
        1,
        picks(&["A", "B", "C", "D", "E", "F"]),
        "alice".to_string(),
    );
    match response {
        TraditionalLeaguesResponse::PortfolioSubmitted { success } => assert!(!success),
        _ => panic!("unexpected response"),
    }
    assert!(league.portfolios.is_empty());
}

#[test]
fn create_tournament_rejects_bad_fee() {
    let mut league = TraditionalLeaguesState::instantiate();
    let response = league.create_tournament(
        "bad".to_string(),
        7,
        10,
        TournamentType::SingleElimination,
        "ALL_CATEGORIES".to_string(),
        1,
    );
    match response {
        TraditionalLeaguesResponse::TournamentCreated { tournament_id } => {
            assert_eq!(tournament_id, "error");
        },
        _ => panic!("unexpected response"),
    }
    assert!(league.tournaments.is_empty());
}

#[test]
fn status_query_is_answered() {
    let mut league = TraditionalLeaguesState::instantiate();
    league.create_tournament(
        "t".to_string(),
        500_000,
        8,
        TournamentType::Swiss,
        "ALL_CATEGORIES".to_string(),
        1,
    );
    let replies = league.execute_message(
        "hub".to_string(),
        CoinDraftsMessage::GetTournamentStatus { tournament_id: "trad-league-1".to_string() },
        2,
    );
    assert_eq!(replies.len(), 1);
}

#[test]
fn live_leaderboard_matches_snapshots() {
    let mut league = TraditionalLeaguesState::instantiate();
    league.create_tournament(
        "live".to_string(),
        500_000,
        10,
        TournamentType::SingleElimination,
        "ALL_CATEGORIES".to_string(),
        1,
    );
    let tid = "trad-league-1".to_string();
    league.register_for_tournament(&tid, "alice".to_string(), 2);
    league.register_for_tournament(&tid, "bob".to_string(), 3);
    league.submit_portfolio(tid.clone(), 1, picks(&["BTC"]), "alice".to_string());
    league.submit_portfolio(tid.clone(), 1, picks(&["SOL"]), "bob".to_string());
    league.start_tournament(&tid, vec![snap("BTC", 1_000_000), snap("SOL", 1_000_000)], 4);
    let (_, _) = league.end_tournament(
        &tid,
        vec![snap("BTC", 1_100_000), snap("SOL", 900_000)],
        5,
    );
    let board = league.tournament_leaderboard(&tid);
    assert_eq!(board.len(), 2);
    assert_eq!(board[0].player_account, "alice");
    assert_eq!(board[0].rank, 1);
    // pool is 500,000 * 2 participants; the winner takes 60 percent
    assert_eq!(board[0].winning_amount, 600_000);
    assert_eq!(board[1].winning_amount, 300_000);
    assert_eq!(league.tournament_participants(&tid).len(), 2);
    assert_eq!(league.tournament_results(&tid), vec!["alice", "bob"]);
}

#[test]
fn expiry_check_completes_overdue_tournaments() {
    let mut league = TraditionalLeaguesState::instantiate();
    league.create_tournament(
        "slow".to_string(),
        500_000,
        10,
        TournamentType::RoundRobin,
        "ALL_CATEGORIES".to_string(),
        1,
    );
    let tid = "trad-league-1".to_string();
    league.register_for_tournament(&tid, "alice".to_string(), 2);
    league.register_for_tournament(&tid, "bob".to_string(), 3);
    league.submit_portfolio(tid.clone(), 1, picks(&["BTC"]), "alice".to_string());
    league.submit_portfolio(tid.clone(), 1, picks(&["SOL"]), "bob".to_string());
    // record both snapshots but do not settle yet
    league.start_tournament(&tid, vec![snap("BTC", 1_000_000), snap("SOL", 1_000_000)], 10);
    // nothing expires before the running time has elapsed
    let (early, _) = league.check_expired_tournaments(11);
    match early {
        coindrafts::tournament::TraditionalLeaguesResponse::ExpiredTournamentsChecked {
            completed_tournaments,
        } => assert!(completed_tournaments.is_empty()),
        _ => panic!("unexpected response"),
    }
    // a contest cannot settle without an end snapshot: the expiry check
    // leaves it running until the snapshot arrives with the end operation
    let (response, _) = league.end_tournament(&tid, vec![snap("BTC", 1_200_000), snap("SOL", 1_000_000)], 12);
    match response {
        coindrafts::tournament::TraditionalLeaguesResponse::TournamentEnded { success, .. } => {
            assert!(success)
        },
        _ => panic!("unexpected response"),
    }
    assert_eq!(league.tournaments[0].status, TournamentStatus::Completed);
}

#[test]
fn status_queries_filter_by_lifecycle() {
    let mut league = TraditionalLeaguesState::instantiate();
    league.create_tournament(
        "one".to_string(),
        500_000,
        10,
        TournamentType::Swiss,
        "ALL_CATEGORIES".to_string(),
        1,
    );
    assert_eq!(league.tournaments_by_status(TournamentStatus::Registration).len(), 1);
    assert_eq!(league.tournaments_by_status(TournamentStatus::Completed).len(), 0);
    assert_eq!(league.active_tournaments().len(), 1);
    assert!(league.tournament(&"trad-league-1".to_string()).is_some());
    assert!(league.tournament(&"trad-league-9".to_string()).is_none());
    assert!(league
        .player_portfolio(&"trad-league-1".to_string(), 1, &"ghostwriter".to_string())
        .is_none());
}

#[test]
fn registration_closes_when_the_round_starts() {
    let mut league = TraditionalLeaguesState::instantiate();
    league.create_tournament(
        "duo".to_string(),
        500_000,
        8,
        TournamentType::SingleElimination,
        "ALL_CATEGORIES".to_string(),
        1,
    );
    let tid = "trad-league-1".to_string();
    league.register_for_tournament(&tid, "alice".to_string(), 2);
    league.register_for_tournament(&tid, "bob".to_string(), 3);
    // the second registration auto-started round one, closing registration
    match league.register_for_tournament(&tid, "carol".to_string(), 4) {
        TraditionalLeaguesResponse::PlayerRegistered { success } => assert!(!success),
        _ => panic!("unexpected response"),
    }
    assert_eq!(league.tournaments[0].current_participants, 2);
    // once registration has closed, even an existing participant's repeat
    // registration is refused without any state change
    match league.register_for_tournament(&tid, "alice".to_string(), 5) {
        TraditionalLeaguesResponse::PlayerRegistered { success } => assert!(!success),
        _ => panic!("unexpected response"),
    }
}

#[test]
fn league_capacity_is_never_exceeded() {
    let mut league = TraditionalLeaguesState::instantiate();
    league.create_tournament(
        "tight".to_string(),
        500_000,
        2,
        TournamentType::SingleElimination,
        "ALL_CATEGORIES".to_string(),
        1,
    );
    let tid = "trad-league-1".to_string();
    // registering the same account twice is one idempotent success
    match league.register_for_tournament(&tid, "alice".to_string(), 2) {
        TraditionalLeaguesResponse::PlayerRegistered { success } => assert!(success),
        _ => panic!("unexpected response"),
    }
    match league.register_for_tournament(&tid, "alice".to_string(), 3) {
        TraditionalLeaguesResponse::PlayerRegistered { success } => assert!(success),
        _ => panic!("unexpected response"),
    }
    assert_eq!(league.tournaments[0].current_participants, 1);
    assert_eq!(league.participants.len(), 1);
}

#[test]
fn round_advancing_counts_up() {
    let mut league = TraditionalLeaguesState::instantiate();
    league.create_tournament(
        "rounds".to_string(),
        500_000,
        8,
        TournamentType::RoundRobin,
        "ALL_CATEGORIES".to_string(),
        1,
    );
    assert_eq!(league.tournaments[0].max_rounds, 7);
    let tid = "trad-league-1".to_string();
    match league.advance_round(&tid, 2) {
        TraditionalLeaguesResponse::RoundAdvanced { new_round } => assert_eq!(new_round, 1),
        _ => panic!("unexpected response"),
    }
    assert_eq!(league.tournaments[0].status, TournamentStatus::InProgress);
    match league.advance_round(&tid, 3) {
        TraditionalLeaguesResponse::RoundAdvanced { new_round } => assert_eq!(new_round, 2),
        _ => panic!("unexpected response"),
    }
    match league.advance_round(&"trad-league-9".to_string(), 4) {
        TraditionalLeaguesResponse::RoundAdvanced { new_round } => assert_eq!(new_round, 0),
        _ => panic!("unexpected response"),
    }
}
