//! Validation of primitive operation inputs: these checks run before any
//! mutation, so a rejected input leaves every entity untouched.

use vstd::prelude::*;
use vstd::string::*;
use crate::error::CoinDraftsError;

verus! {

/// Validates a player display name: between 3 and 50 characters.
pub fn validate_player_name(name: &str) -> (r: Result<(), CoinDraftsError>)
    ensures
        r is Ok <==> 3 <= name@.len() <= 50,
        r matches Err(e) ==> e is Validation,
{
    let len = name.unicode_len();
    if len < 3 {
        return Err(CoinDraftsError::validation(String::from_str("player name is too short")));
    }
    if len > 50 {
        return Err(CoinDraftsError::validation(String::from_str("player name is too long")));
    }
    Ok(())
}

/// Validates an entry fee: between 100,000 and 100,000,000 micro-units.
pub fn validate_entry_fee(fee: u64) -> (r: Result<(), CoinDraftsError>)
    ensures
        r is Ok <==> 100_000 <= fee <= 100_000_000,
        r matches Err(e) ==> e is Validation,
{
    if fee < 100_000 {
        return Err(CoinDraftsError::validation(String::from_str("entry fee is below the minimum")));
    }
    if fee > 100_000_000 {
        return Err(CoinDraftsError::validation(String::from_str("entry fee is above the maximum")));
    }
    Ok(())
}

/// Validates a game duration: between 1 and 168 hours.
pub fn validate_game_duration(hours: u64) -> (r: Result<(), CoinDraftsError>)
    ensures
        r is Ok <==> 1 <= hours <= 168,
        r matches Err(e) ==> e is Validation,
{
    if hours < 1 {
        return Err(CoinDraftsError::validation(String::from_str("game duration is below the minimum")));
    }
    if hours > 168 {
        return Err(CoinDraftsError::validation(String::from_str("game duration is above the maximum")));
    }
    Ok(())
}

} // verus!
