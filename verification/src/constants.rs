//! Global constants and default configurations for the game platform.
//!
//! All monetary amounts are micro-units (1 currency unit = 1,000,000) and all
//! percentage-like values are scaled integers, so the whole pipeline stays in
//! integer arithmetic.

use vstd::prelude::*;
use crate::text::{lemma_ascii_lower_fixed, spec_ascii_lower, str_eq, str_eq_ignore_ascii_case};

verus! {

// Player validation constants
pub const MIN_PLAYER_NAME_LENGTH: usize = 3;

pub const MAX_PLAYER_NAME_LENGTH: usize = 50;

// Game constants
pub const MIN_ENTRY_FEE_USDC: u64 = 100_000;

pub const MAX_ENTRY_FEE_USDC: u64 = 100_000_000;

pub const MIN_GAME_DURATION_HOURS: u64 = 1;

pub const MAX_GAME_DURATION_HOURS: u64 = 168;

// Portfolio constants
pub const MIN_PORTFOLIO_SIZE: usize = 1;

pub const MAX_PORTFOLIO_SIZE: usize = 10;

pub const MIN_ALLOCATION_PERCENT: u8 = 1;

pub const MAX_ALLOCATION_PERCENT: u8 = 100;

/// Ranked tournament portfolios carry at most this many picks.
pub const MAX_TOURNAMENT_PICKS: usize = 5;

// Time constants (in microseconds)
pub const HOUR_MICROS: u64 = 60 * 60 * 1_000_000;

pub const DAY_MICROS: u64 = 24 * HOUR_MICROS;

pub const WEEK_MICROS: u64 = 7 * DAY_MICROS;

/// Configuration defaults for one game mode.
#[derive(Debug, Clone, Copy, PartialEq, Eq, Structural)]
pub struct GameConfigConstants {
    pub entry_fee_usdc: u64,
    pub duration_hours: u64,
    pub max_players: u32,
    pub portfolio_size: u8,
    pub min_diversity: u8,
}

/// The symbols the platform accepts in portfolios.
pub open spec fn spec_supported_symbol(s: Seq<char>) -> bool {
    ||| s == "BTC"@
    ||| s == "ETH"@
    ||| s == "ADA"@
    ||| s == "SOL"@
    ||| s == "DOT"@
    ||| s == "AVAX"@
    ||| s == "MATIC"@
    ||| s == "LINK"@
    ||| s == "UNI"@
    ||| s == "AAVE"@
    ||| s == "COMP"@
    ||| s == "MKR"@
    ||| s == "SNX"@
    ||| s == "YFI"@
    ||| s == "SUSHI"@
    ||| s == "CRV"@
    ||| s == "DOGE"@
    ||| s == "SHIB"@
    ||| s == "PEPE"@
    ||| s == "FLOKI"@
    ||| s == "WIF"@
    ||| s == "BONK"@
    ||| s == "ATOM"@
    ||| s == "OSMO"@
    ||| s == "JUNO"@
    ||| s == "SCRT"@
    ||| s == "LUNA"@
    ||| s == "UST"@
    ||| s == "FIL"@
    ||| s == "AR"@
    ||| s == "SC"@
    ||| s == "STORJ"@
    ||| s == "BAND"@
    ||| s == "API3"@
    ||| s == "TRB"@
    ||| s == "SAND"@
    ||| s == "MANA"@
    ||| s == "AXS"@
    ||| s == "GALA"@
    ||| s == "ENJ"@
    ||| s == "FLOW"@
    ||| s == "XTZ"@
    ||| s == "ALGO"@
    ||| s == "NEAR"@
    ||| s == "ICP"@
    ||| s == "HBAR"@
}

/// Whether a cryptocurrency symbol is supported by the platform.
pub fn is_supported_cryptocurrency(symbol: &str) -> (r: bool)
    ensures
        r == spec_supported_symbol(symbol@),
{
    str_eq(symbol, "BTC") || str_eq(symbol, "ETH") || str_eq(symbol, "ADA") || str_eq(
        symbol,
        "SOL",
    ) || str_eq(symbol, "DOT") || str_eq(symbol, "AVAX") || str_eq(symbol, "MATIC") || str_eq(
        symbol,
        "LINK",
    ) || str_eq(symbol, "UNI") || str_eq(symbol, "AAVE") || str_eq(symbol, "COMP") || str_eq(
        symbol,
        "MKR",
    ) || str_eq(symbol, "SNX") || str_eq(symbol, "YFI") || str_eq(symbol, "SUSHI") || str_eq(
        symbol,
        "CRV",
    ) || str_eq(symbol, "DOGE") || str_eq(symbol, "SHIB") || str_eq(symbol, "PEPE") || str_eq(
        symbol,
        "FLOKI",
    ) || str_eq(symbol, "WIF") || str_eq(symbol, "BONK") || str_eq(symbol, "ATOM") || str_eq(
        symbol,
        "OSMO",
    ) || str_eq(symbol, "JUNO") || str_eq(symbol, "SCRT") || str_eq(symbol, "LUNA") || str_eq(
        symbol,
        "UST",
    ) || str_eq(symbol, "FIL") || str_eq(symbol, "AR") || str_eq(symbol, "SC") || str_eq(
        symbol,
        "STORJ",
    ) || str_eq(symbol, "BAND") || str_eq(symbol, "API3") || str_eq(symbol, "TRB") || str_eq(
        symbol,
        "SAND",
    ) || str_eq(symbol, "MANA") || str_eq(symbol, "AXS") || str_eq(symbol, "GALA") || str_eq(
        symbol,
        "ENJ",
    ) || str_eq(symbol, "FLOW") || str_eq(symbol, "XTZ") || str_eq(symbol, "ALGO") || str_eq(
        symbol,
        "NEAR",
    ) || str_eq(symbol, "ICP") || str_eq(symbol, "HBAR")
}

/// The default configuration for the traditional league mode.
pub open spec fn spec_traditional_league_config() -> GameConfigConstants {
    GameConfigConstants {
        entry_fee_usdc: 1_000_000,
        duration_hours: 168,
        max_players: 100,
        portfolio_size: 5,
        min_diversity: 20,
    }
}

/// The default configuration for the quick match mode.
pub open spec fn spec_quick_match_config() -> GameConfigConstants {
    GameConfigConstants {
        entry_fee_usdc: 500_000,
        duration_hours: 24,
        max_players: 50,
        portfolio_size: 3,
        min_diversity: 30,
    }
}

/// The default configuration for the price prediction mode.
pub open spec fn spec_price_prediction_config() -> GameConfigConstants {
    GameConfigConstants {
        entry_fee_usdc: 1_000_000,
        duration_hours: 168,
        max_players: 200,
        portfolio_size: 5,
        min_diversity: 15,
    }
}

/// The default configuration for a game mode named by its lowercase key.
pub open spec fn spec_default_config(mode: Seq<char>) -> Option<GameConfigConstants> {
    if mode == "traditional"@ || mode == "traditional_league"@ {
        Some(spec_traditional_league_config())
    } else if mode == "quick"@ || mode == "quick_match"@ {
        Some(spec_quick_match_config())
    } else if mode == "prediction"@ || mode == "price_prediction"@ {
        Some(spec_price_prediction_config())
    } else {
        None
    }
}

/// The configuration keys are their own lowercase images.
proof fn lemma_lowercase_keys()
    ensures
        spec_ascii_lower("traditional"@) == "traditional"@,
        spec_ascii_lower("traditional_league"@) == "traditional_league"@,
        spec_ascii_lower("quick"@) == "quick"@,
        spec_ascii_lower("quick_match"@) == "quick_match"@,
        spec_ascii_lower("prediction"@) == "prediction"@,
        spec_ascii_lower("price_prediction"@) == "price_prediction"@,
{
    reveal_strlit("traditional");
    reveal_strlit("traditional_league");
    reveal_strlit("quick");
    reveal_strlit("quick_match");
    reveal_strlit("prediction");
    reveal_strlit("price_prediction");
    lemma_ascii_lower_fixed("traditional"@);
    lemma_ascii_lower_fixed("traditional_league"@);
    lemma_ascii_lower_fixed("quick"@);
    lemma_ascii_lower_fixed("quick_match"@);
    lemma_ascii_lower_fixed("prediction"@);
    lemma_ascii_lower_fixed("price_prediction"@);
}

/// Looks up the default configuration for a game mode by its key, compared
/// up to ASCII case, so mixed-case keys answer like their lowercase forms.
pub fn get_default_config(mode: &str) -> (r: Option<GameConfigConstants>)
    ensures
        r == spec_default_config(spec_ascii_lower(mode@)),
{
    proof {
        lemma_lowercase_keys();
    }
    if str_eq_ignore_ascii_case(mode, "traditional") || str_eq_ignore_ascii_case(
        mode,
        "traditional_league",
    ) {
        Some(
            GameConfigConstants {
                entry_fee_usdc: 1_000_000,
                duration_hours: 168,
                max_players: 100,
                portfolio_size: 5,
                min_diversity: 20,
            },
        )
    } else if str_eq_ignore_ascii_case(mode, "quick") || str_eq_ignore_ascii_case(
        mode,
        "quick_match",
    ) {
        Some(
            GameConfigConstants {
                entry_fee_usdc: 500_000,
                duration_hours: 24,
                max_players: 50,
                portfolio_size: 3,
                min_diversity: 30,
            },
        )
    } else if str_eq_ignore_ascii_case(mode, "prediction") || str_eq_ignore_ascii_case(
        mode,
        "price_prediction",
    ) {
        Some(
            GameConfigConstants {
                entry_fee_usdc: 1_000_000,
                duration_hours: 168,
                max_players: 200,
                portfolio_size: 5,
                min_diversity: 15,
            },
        )
    } else {
        None
    }
}

} // verus!
