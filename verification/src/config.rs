//! Game configuration and its validation.

use vstd::prelude::*;

use crate::protocol::GameError;

verus! {

pub const MILLISEC_IN_SEC: u64 = 1000;

/// The smallest stage timeout a configuration may carry.
pub const MIN_TIMEOUT: u64 = 5 * MILLISEC_IN_SEC;

/// The smallest player capacity a configuration may carry.
pub const MIN_PLAYERS_COUNT: u8 = 2;

/// The rules of one game: the bet collected from every player, the lobby
/// capacity, and the three stage timeouts in milliseconds.  Immutable while
/// a game is running; a staged successor swaps in when a new game starts.
#[derive(Clone, Copy, Debug, PartialEq, Eq, Structural)]
pub struct GameConfig {
    pub bet_size: u128,
    pub players_count_limit: u8,
    pub entry_timeout: u64,
    pub move_timeout: u64,
    pub reveal_timeout: u64,
}

/// A duration in calendar units, as accepted at the wire boundary.
#[derive(Clone, Copy, Debug, PartialEq, Eq, Structural)]
pub struct Duration {
    pub days: u64,
    pub hours: u64,
    pub minutes: u64,
}

/// The capacity reaches the minimum player count and every timeout reaches
/// the minimum threshold.
pub open spec fn config_valid(c: GameConfig) -> bool {
    &&& c.players_count_limit >= MIN_PLAYERS_COUNT
    &&& c.entry_timeout >= MIN_TIMEOUT
    &&& c.move_timeout >= MIN_TIMEOUT
    &&& c.reveal_timeout >= MIN_TIMEOUT
}

/// Rejects a configuration whose capacity or any of whose timeouts is below
/// its minimum.
pub fn validate_game_config(config: &GameConfig) -> (r: Result<(), GameError>)
    ensures
        r is Ok <==> config_valid(*config),
        r is Err ==> r == Err::<(), GameError>(GameError::InvalidGameConfig),
{
    if config.players_count_limit < MIN_PLAYERS_COUNT {
        return Err(GameError::InvalidGameConfig);
    }
    if config.entry_timeout < MIN_TIMEOUT {
        return Err(GameError::InvalidGameConfig);
    }
    if config.move_timeout < MIN_TIMEOUT {
        return Err(GameError::InvalidGameConfig);
    }
    if config.reveal_timeout < MIN_TIMEOUT {
        return Err(GameError::InvalidGameConfig);
    }
    Ok(())
}

} // verus!
