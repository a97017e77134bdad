//! Cross-instance message protocol.
//!
//! Each application instance owns its data; coordination happens only through
//! typed messages. A handler never blocks on a reply: outbound messages are
//! queued as envelopes and delivered asynchronously, and every inbound message
//! must be tolerated even when it references entities the receiver no longer
//! (or does not yet) know.

use vstd::prelude::*;
use crate::league::TournamentPortfolio;

verus! {

/// Messages sent by the hub to a tournament mode engine.
pub enum CoinDraftsMessage {
    /// Request to create a tournament for a traditional league game.
    CreateTournament { game_id: String, tournament_name: String, entry_fee_usdc: u64, max_participants: u32 },
    /// Register a player for a specific tournament.
    RegisterPlayerForTournament { game_id: String, tournament_id: String, player_account: String },
    /// Sync a portfolio submission to the tournament engine (best effort).
    SyncPortfolio { game_id: String, tournament_id: String, player_account: String, portfolio: TournamentPortfolio },
    /// Request a tournament status update.
    GetTournamentStatus { tournament_id: String },
    /// Response to a player verification request.
    VerifyPlayer { game_id: String, player_account: String, tournament_id: String, verified: bool },
}

/// Messages sent by a tournament mode engine to the hub.
pub enum TraditionalLeaguesMessage {
    /// Confirmation that a tournament was created for a game.
    TournamentCreated { game_id: String, tournament_id: String, tournament_info: String },
    /// Notification that a tournament completed, carrying the winners and the
    /// total prize pool so the hub can update player statistics on its own.
    TournamentCompleted { game_id: String, tournament_id: String, winners: Vec<String>, total_prize_pool: u64 },
    /// Response to a player verification request.
    PlayerVerified { game_id: String, player_account: String, verified: bool },
    /// Advisory tournament status update.
    TournamentStatusUpdate { tournament_id: String, status: String, current_round: u32 },
}

/// An outbound message addressed to another application instance. The payload
/// carries enough data for the receiver to act without calling back.
pub struct Envelope<M> {
    /// Identifier of the destination instance.
    pub destination: String,
    /// Typed message payload.
    pub payload: M,
}

} // verus!
