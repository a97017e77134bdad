use coindrafts::achievements::{
    evaluate_achievements, has_achievement, unlock_achievement, AchievementKind,
};
use coindrafts::error::CoinDraftsError;
use coindrafts::player::{PlayerProfile, PlayerStats, PlayerTier};
use coindrafts::portfolio::{CryptoHolding, Portfolio};
use coindrafts::text::u64_to_dec;
use coindrafts::validation::{validate_entry_fee, validate_game_duration, validate_player_name};

#[test]
fn tiers_follow_games_and_win_rate() {
    assert_eq!(PlayerTier::tier_for(0, 0), PlayerTier::Rookie);
    assert_eq!(PlayerTier::tier_for(5, 1), PlayerTier::Bronze);
    assert_eq!(PlayerTier::tier_for(20, 5), PlayerTier::Silver);
    assert_eq!(PlayerTier::tier_for(60, 20), PlayerTier::Gold);
    assert_eq!(PlayerTier::tier_for(1000, 700), PlayerTier::Grandmaster);
    // high win rate without the games still holds the lower band
    assert_eq!(PlayerTier::tier_for(4, 4), PlayerTier::Rookie);
}

#[test]
fn tier_thresholds_match_the_band_table() {
    assert_eq!(PlayerTier::Bronze.required_games(), 5);
    assert_eq!(PlayerTier::Grandmaster.required_games(), 1000);
    assert_eq!(PlayerTier::Silver.required_win_rate_bps(), 2000);
    assert_eq!(PlayerTier::Rookie.rank(), 0);
    assert_eq!(PlayerTier::Grandmaster.rank(), 7);
}

#[test]
fn fresh_profiles_start_at_rookie() {
    let profile = PlayerProfile::new("acct".to_string(), "Name".to_string(), 42);
    assert_eq!(profile.tier, PlayerTier::Rookie);
    assert_eq!(profile.total_earnings_usdc, 0);
    assert_eq!(profile.stats.games_played, 0);
    assert_eq!(profile.registered_at, 42);
}

#[test]
fn achievements_fire_on_thresholds() {
    let stats = PlayerStats {
        games_played: 10,
        games_won: 1,
        top_10_finishes: 0,
        avg_performance: 0,
        best_performance: 0,
        current_streak: 0,
        longest_streak: 0,
        accuracy_score: 0,
    };
    let kinds = evaluate_achievements(&stats, PlayerTier::Rookie, PlayerTier::Bronze, 1, 6_000);
    assert!(kinds.contains(&AchievementKind::FirstWin));
    assert!(kinds.contains(&AchievementKind::TenGamesPlayed));
    assert!(kinds.contains(&AchievementKind::ExceptionalReturn));
    assert!(kinds.contains(&AchievementKind::TierReached { tier: PlayerTier::Bronze }));
    assert!(!kinds.contains(&AchievementKind::FiftyGamesPlayed));
}

#[test]
fn unlocking_twice_creates_no_duplicate() {
    let mut achievements = Vec::new();
    let account = "alice".to_string();
    let gid = "game_1".to_string();
    assert!(unlock_achievement(
        &mut achievements,
        &account,
        AchievementKind::FirstWin,
        5,
        Some(&gid)
    ));
    assert!(!unlock_achievement(
        &mut achievements,
        &account,
        AchievementKind::FirstWin,
        6,
        Some(&gid)
    ));
    assert_eq!(achievements.len(), 1);
    assert!(has_achievement(&achievements, &account, AchievementKind::FirstWin));
}

#[test]
fn portfolio_validation_requires_exact_hundred() {
    let make = |allocs: &[u8]| Portfolio::new(
        "game_1".to_string(),
        "alice".to_string(),
        allocs
            .iter()
            .enumerate()
            .map(|(i, a)| CryptoHolding { symbol: u64_to_dec(i as u64), allocation_percent: *a })
            .collect(),
        1,
    );
    assert!(make(&[50, 50]).validate().is_ok());
    assert!(make(&[100]).validate().is_ok());
    assert!(make(&[60, 30]).validate().is_err());
    assert!(make(&[]).validate().is_err());
    assert!(make(&[10; 11]).validate().is_err());
}

#[test]
fn validation_bounds_are_exact() {
    assert!(validate_player_name("abc").is_ok());
    assert!(validate_player_name("ab").is_err());
    assert!(validate_entry_fee(100_000).is_ok());
    assert!(validate_entry_fee(99_999).is_err());
    assert!(validate_entry_fee(100_000_001).is_err());
    assert!(validate_game_duration(1).is_ok());
    assert!(validate_game_duration(169).is_err());
}

#[test]
fn error_codes_are_stable() {
    assert_eq!(CoinDraftsError::validation("x".to_string()).code(), "VALIDATION_ERROR");
    assert_eq!(
        CoinDraftsError::GameNotFound { game_id: "g".to_string() }.code(),
        "GAME_NOT_FOUND"
    );
    assert_eq!(CoinDraftsError::Unauthorized.code(), "UNAUTHORIZED");
    assert!(CoinDraftsError::RateLimit.is_retryable());
    assert!(!CoinDraftsError::Unauthorized.is_retryable());
}

#[test]
fn decimal_rendering_matches() {
    assert_eq!(u64_to_dec(0), "0");
    assert_eq!(u64_to_dec(42), "42");
    assert_eq!(u64_to_dec(1_000_000), "1000000");
    assert_eq!(u64_to_dec(u64::MAX), "18446744073709551615");
}
