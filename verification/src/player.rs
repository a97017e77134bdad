//! Player profiles, cumulative statistics, and the tier band table.
//!
//! Performance figures are carried as integers scaled by 10,000 and win rates
//! in basis points (1.00% = 100), so the tier derivation is exact and
//! reproducible.

use vstd::prelude::*;

verus! {

/// Cumulative statistics for one player.
#[derive(Debug, Clone, Copy, PartialEq, Eq, Structural)]
pub struct PlayerStats {
    /// Total games played.
    pub games_played: u32,
    /// Games won (first place).
    pub games_won: u32,
    /// Games finished in the top ten percent.
    pub top_10_finishes: u32,
    /// Average portfolio performance, scaled by 10,000.
    pub avg_performance: i64,
    /// Best single game performance, scaled by 10,000.
    pub best_performance: i64,
    /// Current win streak.
    pub current_streak: u32,
    /// Longest win streak.
    pub longest_streak: u32,
    /// Portfolio accuracy score (0 to 100).
    pub accuracy_score: u8,
}

/// The all-zero statistics of a freshly registered player.
pub open spec fn spec_fresh_stats() -> PlayerStats {
    PlayerStats {
        games_played: 0,
        games_won: 0,
        top_10_finishes: 0,
        avg_performance: 0,
        best_performance: 0,
        current_streak: 0,
        longest_streak: 0,
        accuracy_score: 0,
    }
}

impl Default for PlayerStats {
    /// Fresh statistics: every counter at zero.
    fn default() -> (r: Self)
        ensures
            r == spec_fresh_stats(),
    {
        PlayerStats {
            games_played: 0,
            games_won: 0,
            top_10_finishes: 0,
            avg_performance: 0,
            best_performance: 0,
            current_streak: 0,
            longest_streak: 0,
            accuracy_score: 0,
        }
    }
}

/// Player tiers, ordered from entry level upward.
#[derive(Debug, Clone, Copy, PartialEq, Eq, Hash, Structural)]
pub enum PlayerTier {
    Rookie,
    Bronze,
    Silver,
    Gold,
    Platinum,
    Diamond,
    Master,
    Grandmaster,
}

/// The position of a tier in the ordered band table (0 is the lowest).
pub open spec fn spec_tier_rank(t: PlayerTier) -> int {
    match t {
        PlayerTier::Rookie => 0,
        PlayerTier::Bronze => 1,
        PlayerTier::Silver => 2,
        PlayerTier::Gold => 3,
        PlayerTier::Platinum => 4,
        PlayerTier::Diamond => 5,
        PlayerTier::Master => 6,
        PlayerTier::Grandmaster => 7,
    }
}

/// The games-played threshold of each tier.
pub open spec fn spec_required_games(t: PlayerTier) -> u32 {
    match t {
        PlayerTier::Rookie => 0,
        PlayerTier::Bronze => 5,
        PlayerTier::Silver => 15,
        PlayerTier::Gold => 50,
        PlayerTier::Platinum => 100,
        PlayerTier::Diamond => 250,
        PlayerTier::Master => 500,
        PlayerTier::Grandmaster => 1000,
    }
}

/// The win-rate threshold of each tier, in basis points.
pub open spec fn spec_required_win_rate_bps(t: PlayerTier) -> u32 {
    match t {
        PlayerTier::Rookie => 0,
        PlayerTier::Bronze => 1000,
        PlayerTier::Silver => 2000,
        PlayerTier::Gold => 3000,
        PlayerTier::Platinum => 4000,
        PlayerTier::Diamond => 5000,
        PlayerTier::Master => 6000,
        PlayerTier::Grandmaster => 7000,
    }
}

/// A player's win rate in basis points: wins over games played.
pub open spec fn spec_win_rate_bps(games_played: u32, games_won: u32) -> int {
    if games_played == 0 {
        0
    } else {
        (games_won * 10000) as int / games_played as int
    }
}

/// Whether the statistics meet both thresholds of a tier.
pub open spec fn spec_meets_tier(games_played: u32, games_won: u32, t: PlayerTier) -> bool {
    &&& games_played >= spec_required_games(t)
    &&& spec_win_rate_bps(games_played, games_won) >= spec_required_win_rate_bps(t)
}

/// The tier a player holds: the highest band whose games-played and win-rate
/// thresholds are both met. Bands are non-overlapping and the tier is
/// recomputed from the statistics on every settlement, never stored apart.
pub open spec fn spec_tier_for(games_played: u32, games_won: u32) -> PlayerTier {
    if spec_meets_tier(games_played, games_won, PlayerTier::Grandmaster) {
        PlayerTier::Grandmaster
    } else if spec_meets_tier(games_played, games_won, PlayerTier::Master) {
        PlayerTier::Master
    } else if spec_meets_tier(games_played, games_won, PlayerTier::Diamond) {
        PlayerTier::Diamond
    } else if spec_meets_tier(games_played, games_won, PlayerTier::Platinum) {
        PlayerTier::Platinum
    } else if spec_meets_tier(games_played, games_won, PlayerTier::Gold) {
        PlayerTier::Gold
    } else if spec_meets_tier(games_played, games_won, PlayerTier::Silver) {
        PlayerTier::Silver
    } else if spec_meets_tier(games_played, games_won, PlayerTier::Bronze) {
        PlayerTier::Bronze
    } else {
        PlayerTier::Rookie
    }
}

impl PlayerTier {
    /// The position of this tier in the ordered band table.
    pub fn rank(self) -> (r: u32)
        ensures
            r == spec_tier_rank(self),
    {
        match self {
            PlayerTier::Rookie => 0,
            PlayerTier::Bronze => 1,
            PlayerTier::Silver => 2,
            PlayerTier::Gold => 3,
            PlayerTier::Platinum => 4,
            PlayerTier::Diamond => 5,
            PlayerTier::Master => 6,
            PlayerTier::Grandmaster => 7,
        }
    }

    /// The games-played threshold of this tier.
    pub fn required_games(self) -> (r: u32)
        ensures
            r == spec_required_games(self),
    {
        match self {
            PlayerTier::Rookie => 0,
            PlayerTier::Bronze => 5,
            PlayerTier::Silver => 15,
            PlayerTier::Gold => 50,
            PlayerTier::Platinum => 100,
            PlayerTier::Diamond => 250,
            PlayerTier::Master => 500,
            PlayerTier::Grandmaster => 1000,
        }
    }

    /// The win-rate threshold of this tier, in basis points.
    pub fn required_win_rate_bps(self) -> (r: u32)
        ensures
            r == spec_required_win_rate_bps(self),
    {
        match self {
            PlayerTier::Rookie => 0,
            PlayerTier::Bronze => 1000,
            PlayerTier::Silver => 2000,
            PlayerTier::Gold => 3000,
            PlayerTier::Platinum => 4000,
            PlayerTier::Diamond => 5000,
            PlayerTier::Master => 6000,
            PlayerTier::Grandmaster => 7000,
        }
    }

    /// Derives the tier from games played and games won.
    pub fn tier_for(games_played: u32, games_won: u32) -> (r: PlayerTier)
        ensures
            r == spec_tier_for(games_played, games_won),
    {
        let rate_bps: u64 = if games_played == 0 {
            0
        } else {
            (games_won as u64 * 10000) / games_played as u64
        };
        if games_played >= 1000 && rate_bps >= 7000 {
            PlayerTier::Grandmaster
        } else if games_played >= 500 && rate_bps >= 6000 {
            PlayerTier::Master
        } else if games_played >= 250 && rate_bps >= 5000 {
            PlayerTier::Diamond
        } else if games_played >= 100 && rate_bps >= 4000 {
            PlayerTier::Platinum
        } else if games_played >= 50 && rate_bps >= 3000 {
            PlayerTier::Gold
        } else if games_played >= 15 && rate_bps >= 2000 {
            PlayerTier::Silver
        } else if games_played >= 5 && rate_bps >= 1000 {
            PlayerTier::Bronze
        } else {
            PlayerTier::Rookie
        }
    }
}

/// Profile of one player, shared across contests and keyed by account.
pub struct PlayerProfile {
    /// Account identifier.
    pub account: String,
    /// Display name.
    pub name: String,
    /// Registration timestamp in microseconds.
    pub registered_at: u64,
    /// Cumulative statistics.
    pub stats: PlayerStats,
    /// Current tier, derived from the statistics.
    pub tier: PlayerTier,
    /// Cumulative earnings in micro-units.
    pub total_earnings_usdc: u64,
}

impl PlayerProfile {
    /// Builds a fresh profile with zeroed statistics at the entry tier.
    pub fn new(account: String, name: String, timestamp: u64) -> (r: Self)
        ensures
            r.account == account,
            r.name == name,
            r.registered_at == timestamp,
            r.stats == spec_fresh_stats(),
            r.tier is Rookie,
            r.total_earnings_usdc == 0,
    {
        PlayerProfile {
            account,
            name,
            registered_at: timestamp,
            stats: PlayerStats::default(),
            tier: PlayerTier::Rookie,
            total_earnings_usdc: 0,
        }
    }

    /// Returns a copy of this profile.
    pub fn duplicate(&self) -> (r: Self)
        ensures
            r == *self,
    {
        PlayerProfile {
            account: self.account.clone(),
            name: self.name.clone(),
            registered_at: self.registered_at,
            stats: self.stats,
            tier: self.tier,
            total_earnings_usdc: self.total_earnings_usdc,
        }
    }
}

} // verus!
