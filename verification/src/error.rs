//! Error taxonomy for the platform: validation errors are rejected before any
//! mutation, not-found errors reject without mutation, and state conflicts are
//! reported so callers can retry once the precondition is met.

use vstd::prelude::*;

verus! {

/// Error categories for platform operations.
#[derive(Debug, Clone)]
pub enum CoinDraftsError {
    Validation { message: String },
    Game { message: String },
    Portfolio { message: String },
    Player { message: String },
    InsufficientFunds { required: u64, available: u64 },
    GameNotFound { game_id: String },
    PlayerNotFound { player_account: String },
    GameAlreadyStarted { game_id: String },
    GameRegistrationFull { game_id: String },
    PortfolioAlreadySubmitted { game_id: String },
    InvalidPortfolio { errors: Vec<String> },
    Unauthorized,
    RateLimit,
    ExternalApi { message: String },
    Internal { message: String },
}

impl CoinDraftsError {
    /// Builds a validation error.
    pub fn validation(message: String) -> (r: Self)
        ensures
            r matches CoinDraftsError::Validation { message: m } && m == message,
    {
        CoinDraftsError::Validation { message }
    }

    /// Builds a game error.
    pub fn game(message: String) -> (r: Self)
        ensures
            r matches CoinDraftsError::Game { message: m } && m == message,
    {
        CoinDraftsError::Game { message }
    }

    /// Builds a portfolio error.
    pub fn portfolio(message: String) -> (r: Self)
        ensures
            r matches CoinDraftsError::Portfolio { message: m } && m == message,
    {
        CoinDraftsError::Portfolio { message }
    }

    /// Builds a player error.
    pub fn player(message: String) -> (r: Self)
        ensures
            r matches CoinDraftsError::Player { message: m } && m == message,
    {
        CoinDraftsError::Player { message }
    }

    /// Builds an internal error.
    pub fn internal(message: String) -> (r: Self)
        ensures
            r matches CoinDraftsError::Internal { message: m } && m == message,
    {
        CoinDraftsError::Internal { message }
    }

    /// Whether retrying the failed operation can succeed without a change to
    /// the inputs.
    pub fn is_retryable(&self) -> (r: bool)
        ensures
            r == (self is RateLimit || self is ExternalApi || self is Internal),
    {
        match self {
            CoinDraftsError::RateLimit => true,
            CoinDraftsError::ExternalApi { .. } => true,
            CoinDraftsError::Internal { .. } => true,
            _ => false,
        }
    }

    /// The stable error code reported to callers.
    pub fn code(&self) -> (r: &'static str)
        ensures
            r@ == spec_error_code(*self),
    {
        match self {
            CoinDraftsError::Validation { .. } => "VALIDATION_ERROR",
            CoinDraftsError::Game { .. } => "GAME_ERROR",
            CoinDraftsError::Portfolio { .. } => "PORTFOLIO_ERROR",
            CoinDraftsError::Player { .. } => "PLAYER_ERROR",
            CoinDraftsError::InsufficientFunds { .. } => "INSUFFICIENT_FUNDS",
            CoinDraftsError::GameNotFound { .. } => "GAME_NOT_FOUND",
            CoinDraftsError::PlayerNotFound { .. } => "PLAYER_NOT_FOUND",
            CoinDraftsError::GameAlreadyStarted { .. } => "GAME_ALREADY_STARTED",
            CoinDraftsError::GameRegistrationFull { .. } => "GAME_REGISTRATION_FULL",
            CoinDraftsError::PortfolioAlreadySubmitted { .. } => "PORTFOLIO_ALREADY_SUBMITTED",
            CoinDraftsError::InvalidPortfolio { .. } => "INVALID_PORTFOLIO",
            CoinDraftsError::Unauthorized => "UNAUTHORIZED",
            CoinDraftsError::RateLimit => "RATE_LIMIT",
            CoinDraftsError::ExternalApi { .. } => "EXTERNAL_API_ERROR",
            CoinDraftsError::Internal { .. } => "INTERNAL_ERROR",
        }
    }
}

/// The stable error code of each error category.
pub open spec fn spec_error_code(e: CoinDraftsError) -> Seq<char> {
    match e {
        CoinDraftsError::Validation { .. } => "VALIDATION_ERROR"@,
        CoinDraftsError::Game { .. } => "GAME_ERROR"@,
        CoinDraftsError::Portfolio { .. } => "PORTFOLIO_ERROR"@,
        CoinDraftsError::Player { .. } => "PLAYER_ERROR"@,
        CoinDraftsError::InsufficientFunds { .. } => "INSUFFICIENT_FUNDS"@,
        CoinDraftsError::GameNotFound { .. } => "GAME_NOT_FOUND"@,
        CoinDraftsError::PlayerNotFound { .. } => "PLAYER_NOT_FOUND"@,
        CoinDraftsError::GameAlreadyStarted { .. } => "GAME_ALREADY_STARTED"@,
        CoinDraftsError::GameRegistrationFull { .. } => "GAME_REGISTRATION_FULL"@,
        CoinDraftsError::PortfolioAlreadySubmitted { .. } => "PORTFOLIO_ALREADY_SUBMITTED"@,
        CoinDraftsError::InvalidPortfolio { .. } => "INVALID_PORTFOLIO"@,
        CoinDraftsError::Unauthorized => "UNAUTHORIZED"@,
        CoinDraftsError::RateLimit => "RATE_LIMIT"@,
        CoinDraftsError::ExternalApi { .. } => "EXTERNAL_API_ERROR"@,
        CoinDraftsError::Internal { .. } => "INTERNAL_ERROR"@,
    }
}

} // verus!
