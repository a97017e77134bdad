//! Settlement and coordination engine for a multiplayer portfolio-drafting
//! game: contest lifecycle state machines, deterministic fixed-point scoring
//! and prize distribution, achievement evaluation, and the asynchronous
//! cross-instance message protocol that keeps a hub and its mode engines
//! consistent without shared state.

pub mod achievements;
pub mod constants;
pub mod error;
pub mod game;
pub mod hub;
pub mod league;
pub mod messages;
pub mod player;
pub mod portfolio;
pub mod prediction;
pub mod ranking;
pub mod scoring;
pub mod text;
pub mod todo;
pub mod tournament;
pub mod validation;
