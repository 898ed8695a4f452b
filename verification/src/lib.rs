//! A commit-reveal elimination game engine for five-move rock-paper-scissors
//! (rock, paper, scissors, lizard, spock) played by any number of players.
//!
//! The engine is a pure state machine: every handler receives the caller's
//! address, the value attached to the call and the current time as plain
//! arguments, and reports the transfers it orders as plain values.  The
//! surrounding runtime performs the actual transfers, supplies the clock and
//! translates the wire encoding.

mod addrs;
mod config;
mod engine;
mod game;
mod hashing;
mod laws;
mod moves;
mod protocol;
mod resolver;
mod rounds;
mod settlement;
mod stage;
mod table;

pub use addrs::{addrs_contain, distinct_seq};
pub use config::{
    config_valid, validate_game_config, Duration, GameConfig, MIN_PLAYERS_COUNT, MIN_TIMEOUT,
};
pub use engine::{lemma_end_round_balance, lemma_sum_payouts_nonneg, lemma_timeout_balance};
pub use game::RPSGame;
pub use hashing::{
    check_commitment, commitment_matches, commitment_of, encode_hex, hex_of,
    lemma_commitment_round_trip, lemma_hex_of_injective, spec_commitment_of,
};
pub use laws::{lemma_resolver_characterization, lemma_stage_players_disjoint};
pub use moves::{beats, lemma_dominance_tournament, Move};
pub use protocol::{
    sum_payouts, Action, ActionOutcome, Event, GameError, HandleReply, RevealResult, State,
    StateReply,
};
pub use resolver::{distinct_moves, round_survives, tally_survives, winning_moves};
pub use rounds::{
    distinct_move_count, fresh_preparation, move_present, player_survives, timeout_due,
    timeout_rel,
};
pub use settlement::{lemma_affordable_iff_div, lemma_equal_share_bound};
pub use stage::{GameStage, StageDescription};
