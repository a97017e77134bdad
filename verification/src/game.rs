//! Contests on the hub: lifecycle status, per-mode configuration and rules,
//! and price snapshots.

use vstd::prelude::*;

verus! {

/// A price snapshot for one asset at a capture time.
///
/// Prices are micro-units (price multiplied by 1,000,000 for six decimal
/// places of precision), so no floating point is needed anywhere.
pub struct PriceSnapshot {
    pub crypto_id: String,
    pub price_usd: u64,
    pub timestamp: u64,
}

impl PriceSnapshot {
    /// Returns a copy of this snapshot.
    pub fn duplicate(&self) -> (r: Self)
        ensures
            r == *self,
    {
        PriceSnapshot {
            crypto_id: self.crypto_id.clone(),
            price_usd: self.price_usd,
            timestamp: self.timestamp,
        }
    }
}

/// Game modes supported by the hub.
#[derive(Debug, Clone, Copy, PartialEq, Eq, Hash, Structural)]
pub enum GameMode {
    TraditionalLeague,
    QuickMatch,
    PricePrediction,
}

/// Lifecycle status of a hub contest, advancing monotonically forward.
#[derive(Debug, Clone, Copy, PartialEq, Eq, Hash, Structural)]
pub enum GameStatus {
    WaitingForPlayers,
    Active,
    Completed,
}

/// Phases a game can pass through within a round.
#[derive(Debug, Clone, Copy, PartialEq, Eq, Hash, Structural)]
pub enum GamePhase {
    Registration,
    PortfolioSubmission,
    Active,
    Scoring,
    Completed,
}

/// A contest record owned by the hub instance. Created once, mutated only by
/// the owning instance's handlers, and retained as a historical record.
pub struct Game {
    /// Contest identifier, minted from the hub's monotone counter.
    pub game_id: String,
    /// Display name.
    pub name: String,
    /// Game mode.
    pub mode: GameMode,
    /// Lifecycle status.
    pub status: GameStatus,
    /// Creation timestamp in microseconds.
    pub created_at: u64,
    /// Number of registered participants.
    pub player_count: u32,
    /// Registration capacity.
    pub max_players: u32,
    /// Entry fee in micro-units.
    pub entry_fee_usdc: u64,
    /// Contest duration in hours.
    pub duration_hours: u64,
    /// Start price snapshot, recorded when the contest starts.
    pub start_prices: Option<Vec<PriceSnapshot>>,
    /// Accounts of the top finishers, recorded at settlement.
    pub winners: Vec<String>,
}

/// Configuration for one game mode.
#[derive(Debug, Clone, Copy, PartialEq, Eq, Structural)]
pub struct GameConfig {
    /// Game mode type.
    pub mode: GameMode,
    /// Entry fee in micro-units.
    pub entry_fee_usdc: u64,
    /// Duration in hours.
    pub duration_hours: u64,
    /// Maximum number of players.
    pub max_players: u32,
    /// Number of cryptocurrencies required in a portfolio.
    pub portfolio_size: u8,
    /// Minimum portfolio diversity required, in percent.
    pub min_diversity: u8,
}

impl GameConfig {
    /// Configuration for the traditional league mode.
    pub fn traditional_league() -> (r: Self)
        ensures
            r == (GameConfig {
                mode: GameMode::TraditionalLeague,
                entry_fee_usdc: 1_000_000u64,
                duration_hours: 168u64,
                max_players: 100u32,
                portfolio_size: 5u8,
                min_diversity: 20u8,
            }),
    {
        GameConfig {
            mode: GameMode::TraditionalLeague,
            entry_fee_usdc: 1_000_000,
            duration_hours: 168,
            max_players: 100,
            portfolio_size: 5,
            min_diversity: 20,
        }
    }

    /// Configuration for the quick match mode.
    pub fn quick_match() -> (r: Self)
        ensures
            r == (GameConfig {
                mode: GameMode::QuickMatch,
                entry_fee_usdc: 500_000u64,
                duration_hours: 24u64,
                max_players: 50u32,
                portfolio_size: 3u8,
                min_diversity: 30u8,
            }),
    {
        GameConfig {
            mode: GameMode::QuickMatch,
            entry_fee_usdc: 500_000,
            duration_hours: 24,
            max_players: 50,
            portfolio_size: 3,
            min_diversity: 30,
        }
    }

    /// Configuration for the price prediction mode.
    pub fn price_prediction() -> (r: Self)
        ensures
            r == (GameConfig {
                mode: GameMode::PricePrediction,
                entry_fee_usdc: 1_000_000u64,
                duration_hours: 168u64,
                max_players: 200u32,
                portfolio_size: 5u8,
                min_diversity: 15u8,
            }),
    {
        GameConfig {
            mode: GameMode::PricePrediction,
            entry_fee_usdc: 1_000_000,
            duration_hours: 168,
            max_players: 200,
            portfolio_size: 5,
            min_diversity: 15,
        }
    }
}

/// Rules and constraints of one game mode. Percentage limits are carried in
/// whole percent.
#[derive(Debug, Clone, Copy, PartialEq, Eq, Structural)]
pub struct GameRules {
    /// Whether players may change a portfolio after submission.
    pub allow_portfolio_changes: bool,
    /// Maximum portfolio value change per hour, in whole percent.
    pub max_hourly_change_percent: u64,
    /// Whether the risk multiplier applies.
    pub risk_multiplier_enabled: bool,
    /// Whether confidence scoring applies.
    pub ai_scoring_enabled: bool,
    /// Whether team synergy bonuses apply.
    pub synergy_bonuses_enabled: bool,
}

impl GameRules {
    /// Standard rules for the traditional league mode.
    pub fn traditional_league() -> (r: Self)
        ensures
            r == (GameRules {
                allow_portfolio_changes: false,
                max_hourly_change_percent: 50u64,
                risk_multiplier_enabled: true,
                ai_scoring_enabled: true,
                synergy_bonuses_enabled: true,
            }),
    {
        GameRules {
            allow_portfolio_changes: false,
            max_hourly_change_percent: 50,
            risk_multiplier_enabled: true,
            ai_scoring_enabled: true,
            synergy_bonuses_enabled: true,
        }
    }

    /// Standard rules for the quick match mode.
    pub fn quick_match() -> (r: Self)
        ensures
            r == (GameRules {
                allow_portfolio_changes: true,
                max_hourly_change_percent: 100u64,
                risk_multiplier_enabled: true,
                ai_scoring_enabled: false,
                synergy_bonuses_enabled: false,
            }),
    {
        GameRules {
            allow_portfolio_changes: true,
            max_hourly_change_percent: 100,
            risk_multiplier_enabled: true,
            ai_scoring_enabled: false,
            synergy_bonuses_enabled: false,
        }
    }

    /// Standard rules for the price prediction mode.
    pub fn price_prediction() -> (r: Self)
        ensures
            r == (GameRules {
                allow_portfolio_changes: false,
                max_hourly_change_percent: 25u64,
                risk_multiplier_enabled: false,
                ai_scoring_enabled: true,
                synergy_bonuses_enabled: true,
            }),
    {
        GameRules {
            allow_portfolio_changes: false,
            max_hourly_change_percent: 25,
            risk_multiplier_enabled: false,
            ai_scoring_enabled: true,
            synergy_bonuses_enabled: true,
        }
    }
}

} // verus!
