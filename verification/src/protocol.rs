//! Requests, replies and errors at the engine's boundary.
//!
//! Addresses travel as plain integers and strings as their UTF-8 bytes; the
//! surrounding runtime converts between these and its own wire types.

use vstd::prelude::*;

use crate::config::GameConfig;
use crate::stage::GameStage;

verus! {

/// Why an action was rejected.  A rejected action leaves the game unchanged.
#[derive(Clone, Copy, Debug, PartialEq, Eq, Structural)]
pub enum GameError {
    /// An owner-only action came from another caller.
    CallerIsNotOwner,
    /// The player to admit is already in the lobby.
    PlayerAlreadyInLobby,
    /// The player to remove is not in the lobby.
    NoSuchPlayerInLobby,
    /// The lobby already holds as many players as the configuration allows.
    LobbyIsFull,
    /// A lobby edit or registration was attempted while a game is running.
    GameIsInProgress,
    /// Stopping was attempted while no game is running.
    GameIsNotInProgress,
    /// The payment attached to the action does not cover the bet.
    BetIsTooLow,
    /// The action does not belong to the current stage.
    NotPlayersTurn,
    /// The caller is not among the players the stage waits for.
    PlayerNotInGame,
    /// The caller has already revealed this round.
    PlayerAlreadyRevealed,
    /// The revealed plaintext does not hash to the stored commitment.
    CheatingDetected,
    /// The revealed plaintext is empty or names no move.
    InvalidRevealedMove,
    /// A proposed configuration is below a minimum threshold.
    InvalidGameConfig,
    /// The pot cannot cover the refunds owed; the transfers would fail.
    InsufficientPot,
}

/// What resolving a reveal led to.
#[derive(Debug, PartialEq, Eq)]
pub enum RevealResult {
    /// Other players still owe a reveal.
    Continue,
    /// More than one player survived; a new round has started.
    NextRoundStarted { players: Vec<u64> },
    /// A single player survived and was paid the pot.
    GameOver { winner: u64 },
}

/// One request to the engine.
#[derive(Debug, PartialEq, Eq)]
pub enum Action {
    Register,
    AddPlayerInLobby(u64),
    RemovePlayerFromLobby(u64),
    SetLobbyPlayersList(Vec<u64>),
    SetBetSize(u128),
    MakeMove(Vec<u8>),
    Reveal(Vec<u8>),
    ChangeNextGameConfig(GameConfig),
    StopGame,
}

/// The confirmation reported for a successful action.
#[derive(Debug, PartialEq, Eq)]
pub enum Event {
    PlayerRegistred,
    PlayerWasAdded(u64),
    PlayerWasRemoved(u64),
    LobbyPlayersListUpdated,
    BetSizeWasChanged(u128),
    SuccessfulMove(u64),
    SuccessfulReveal(RevealResult),
    GameConfigChanged,
    GameWasStopped(Vec<u64>),
}

/// A read-only query.
#[derive(Clone, Copy, Debug, PartialEq, Eq, Structural)]
pub enum State {
    Config,
    LobbyList,
    GameState,
    CurrentStageTimestamp,
}

/// The answer to a read-only query.
#[derive(Debug, PartialEq, Eq)]
pub enum StateReply {
    Config(GameConfig),
    LobbyList(Vec<u64>),
    GameStage(GameStage),
    CurrentStageTimestamp(u64),
}

/// What a successful action produced: its confirmation event, the part of
/// the attached value returned to the caller, and the transfers the action
/// ordered.
#[derive(Debug, PartialEq, Eq)]
pub struct ActionOutcome {
    pub event: Event,
    pub change: u128,
    pub payouts: Vec<(u64, u128)>,
}

/// What handling one incoming action produced.  The timeout transfers are
/// ordered by the lazy stage transition that runs before the action itself
/// and are owed even when the action is then rejected.
#[derive(Debug, PartialEq, Eq)]
pub struct HandleReply {
    pub timeout_payouts: Vec<(u64, u128)>,
    pub outcome: Result<ActionOutcome, GameError>,
}

/// The total amount a list of transfers pays out.
pub open spec fn sum_payouts(s: Seq<(u64, u128)>) -> int
    decreases s.len(),
{
    if s.len() == 0 {
        0
    } else {
        sum_payouts(s.drop_last()) + s.last().1
    }
}

} // verus!
