//! The game state and the lobby, configuration and query operations.
//!
//! Policy choices made explicit: the bet is owed once per game — a player
//! pays it at registration or with the first committed move of the game and
//! is then a "bettor" until the game ends; returning to preparation clears
//! the bettors.  Lobby edits by the owner never collect a bet.  The staged
//! configuration swaps in only when a new game starts.

use vstd::prelude::*;

use crate::addrs::{addrs_clone, addrs_contain, addrs_insert, addrs_remove, distinct_seq};
use crate::config::{config_valid, validate_game_config, GameConfig};
use crate::moves::Move;
use crate::protocol::{GameError, State, StateReply};
use crate::stage::{GameStage, StageDescription};
use crate::table::{has_key, keys_distinct};

verus! {

/// One running instance of the game engine.
#[derive(Clone)]
pub struct RPSGame {
    /// The privileged address that may edit the lobby, change the rules and
    /// stop the game.
    pub owner: u64,
    /// Players waiting for the next game to start.
    pub lobby: Vec<u64>,
    /// The rules of the current game.
    pub game_config: GameConfig,
    /// The stage the game is in.
    pub stage: GameStage,
    /// The stored commitment of every player who committed this round.
    pub encrypted_moves: Vec<(u64, Vec<u8>)>,
    /// The revealed move of every player who revealed this round.
    pub player_moves: Vec<(u64, Move)>,
    /// Players who have paid the bet for the current game.
    pub bettors: Vec<u64>,
    /// Rules staged by the owner, applied when a new game starts.
    pub next_game_config: Option<GameConfig>,
    /// When the current stage began.
    pub current_stage_start_timestamp: u64,
    /// The value held for distribution: collected bets plus any retained
    /// remainder of earlier equal-share divisions.
    pub pot: u128,
}

impl RPSGame {
    /// The internal invariant.  The lobby, the bettors and both tables are
    /// free of duplicates; the configuration (and any staged successor) is
    /// valid; and the stage determines the tables: during preparation both
    /// are empty, while a round is in progress the commitments belong
    /// exactly to the players who moved, and during reveal the commitments
    /// belong to all players of the round and the revealed moves exactly to
    /// the players who revealed.  A running round always has at least two
    /// players.
    pub open spec fn wf(self) -> bool {
        &&& distinct_seq(self.lobby@)
        &&& distinct_seq(self.bettors@)
        &&& keys_distinct(self.encrypted_moves@)
        &&& keys_distinct(self.player_moves@)
        &&& config_valid(self.game_config)
        &&& (self.next_game_config matches Some(c) ==> config_valid(c))
        &&& match self.stage {
            GameStage::Preparation => self.encrypted_moves@.len() == 0 && self.player_moves@.len()
                == 0,
            GameStage::InProgress(d) => {
                &&& d.wf()
                &&& d.player_count() >= 2
                &&& self.player_moves@.len() == 0
                &&& forall|p: u64|
                    has_key(self.encrypted_moves@, p) <==> d.finished_players@.contains(p)
            },
            GameStage::Reveal(d) => {
                &&& d.wf()
                &&& d.player_count() >= 2
                &&& forall|p: u64| has_key(self.encrypted_moves@, p) <==> d.spec_has_player(p)
                &&& forall|p: u64|
                    has_key(self.player_moves@, p) <==> d.finished_players@.contains(p)
            },
        }
    }

    /// A game is currently running.
    pub open spec fn spec_in_progress(self) -> bool {
        self.stage.spec_in_progress()
    }

    /// `p` has paid the bet for the current game.
    pub open spec fn spec_is_bettor(self, p: u64) -> bool {
        self.bettors@.contains(p)
    }

    /// Everything except the lobby is unchanged.
    pub open spec fn same_but_lobby(pre: RPSGame, post: RPSGame) -> bool {
        &&& post.owner == pre.owner
        &&& post.game_config == pre.game_config
        &&& post.stage == pre.stage
        &&& post.encrypted_moves@ == pre.encrypted_moves@
        &&& post.player_moves@ == pre.player_moves@
        &&& post.bettors@ == pre.bettors@
        &&& post.next_game_config == pre.next_game_config
        &&& post.current_stage_start_timestamp == pre.current_stage_start_timestamp
        &&& post.pot == pre.pot
    }

    /// Whether registration by `caller` paying `value` is allowed, and the
    /// error otherwise.
    pub open spec fn register_decision(pre: RPSGame, caller: u64, value: u128) -> Option<
        GameError,
    > {
        if pre.spec_in_progress() {
            Some(GameError::GameIsInProgress)
        } else if value < pre.game_config.bet_size {
            Some(GameError::BetIsTooLow)
        } else if pre.lobby@.contains(caller) {
            Some(GameError::PlayerAlreadyInLobby)
        } else if pre.lobby@.len() >= pre.game_config.players_count_limit as int {
            Some(GameError::LobbyIsFull)
        } else {
            None
        }
    }

    /// How a registration relates the state before it to the state after it
    /// and to its result, the change returned to the caller.
    pub open spec fn register_rel(
        pre: RPSGame,
        caller: u64,
        value: u128,
        post: RPSGame,
        r: Result<u128, GameError>,
    ) -> bool {
        match Self::register_decision(pre, caller, value) {
            Some(e) => r == Err::<u128, GameError>(e) && post == pre,
            None => {
                &&& r == Ok::<u128, GameError>((value - pre.game_config.bet_size) as u128)
                &&& post.lobby@ == pre.lobby@.push(caller)
                &&& forall|y: u64|
                    post.bettors@.contains(y) <==> (pre.bettors@.contains(y) || y == caller)
                &&& distinct_seq(post.bettors@)
                &&& post.pot == pre.pot + pre.game_config.bet_size
                &&& post.owner == pre.owner
                &&& post.game_config == pre.game_config
                &&& post.stage == pre.stage
                &&& post.encrypted_moves@ == pre.encrypted_moves@
                &&& post.player_moves@ == pre.player_moves@
                &&& post.next_game_config == pre.next_game_config
                &&& post.current_stage_start_timestamp == pre.current_stage_start_timestamp
            },
        }
    }

    /// Whether the owner edit adding `player` is allowed.
    pub open spec fn add_player_decision(pre: RPSGame, caller: u64, player: u64) -> Option<
        GameError,
    > {
        if caller != pre.owner {
            Some(GameError::CallerIsNotOwner)
        } else if pre.spec_in_progress() {
            Some(GameError::GameIsInProgress)
        } else if pre.lobby@.contains(player) {
            Some(GameError::PlayerAlreadyInLobby)
        } else {
            None
        }
    }

    /// How adding a player relates states and result.
    pub open spec fn add_player_rel(
        pre: RPSGame,
        caller: u64,
        player: u64,
        post: RPSGame,
        r: Result<(), GameError>,
    ) -> bool {
        match Self::add_player_decision(pre, caller, player) {
            Some(e) => r == Err::<(), GameError>(e) && post == pre,
            None => r == Ok::<(), GameError>(()) && post.lobby@ == pre.lobby@.push(player)
                && Self::same_but_lobby(pre, post),
        }
    }

    /// Whether the owner edit removing `player` is allowed.
    pub open spec fn remove_player_decision(pre: RPSGame, caller: u64, player: u64) -> Option<
        GameError,
    > {
        if caller != pre.owner {
            Some(GameError::CallerIsNotOwner)
        } else if pre.spec_in_progress() {
            Some(GameError::GameIsInProgress)
        } else if !pre.lobby@.contains(player) {
            Some(GameError::NoSuchPlayerInLobby)
        } else {
            None
        }
    }

    /// How removing a player relates states and result.
    pub open spec fn remove_player_rel(
        pre: RPSGame,
        caller: u64,
        player: u64,
        post: RPSGame,
        r: Result<(), GameError>,
    ) -> bool {
        match Self::remove_player_decision(pre, caller, player) {
            Some(e) => r == Err::<(), GameError>(e) && post == pre,
            None => {
                &&& r == Ok::<(), GameError>(())
                &&& distinct_seq(post.lobby@)
                &&& forall|y: u64|
                    post.lobby@.contains(y) <==> (pre.lobby@.contains(y) && y != player)
                &&& post.lobby@.len() == pre.lobby@.len() - 1
                &&& Self::same_but_lobby(pre, post)
            },
        }
    }

    /// Whether the owner edit replacing the lobby is allowed.
    pub open spec fn set_lobby_decision(pre: RPSGame, caller: u64) -> Option<GameError> {
        if caller != pre.owner {
            Some(GameError::CallerIsNotOwner)
        } else if pre.spec_in_progress() {
            Some(GameError::GameIsInProgress)
        } else {
            None
        }
    }

    /// How replacing the lobby relates states and result.  The new lobby
    /// holds exactly the given players, without duplicates.
    pub open spec fn set_lobby_rel(
        pre: RPSGame,
        caller: u64,
        players: Seq<u64>,
        post: RPSGame,
        r: Result<(), GameError>,
    ) -> bool {
        match Self::set_lobby_decision(pre, caller) {
            Some(e) => r == Err::<(), GameError>(e) && post == pre,
            None => {
                &&& r == Ok::<(), GameError>(())
                &&& distinct_seq(post.lobby@)
                &&& forall|y: u64| post.lobby@.contains(y) <==> players.contains(y)
                &&& Self::same_but_lobby(pre, post)
            },
        }
    }

    /// Whether changing the bet size is allowed.
    pub open spec fn set_bet_size_decision(pre: RPSGame, caller: u64) -> Option<GameError> {
        if caller != pre.owner {
            Some(GameError::CallerIsNotOwner)
        } else if pre.spec_in_progress() {
            Some(GameError::GameIsInProgress)
        } else {
            None
        }
    }

    /// How changing the bet size relates states and result.
    pub open spec fn set_bet_size_rel(
        pre: RPSGame,
        caller: u64,
        bet_size: u128,
        post: RPSGame,
        r: Result<(), GameError>,
    ) -> bool {
        match Self::set_bet_size_decision(pre, caller) {
            Some(e) => r == Err::<(), GameError>(e) && post == pre,
            None => {
                &&& r == Ok::<(), GameError>(())
                &&& post == RPSGame {
                    game_config: GameConfig { bet_size, ..pre.game_config },
                    ..pre
                }
            },
        }
    }

    /// Whether staging `config` for the next game is allowed.
    pub open spec fn set_next_game_config_decision(
        pre: RPSGame,
        caller: u64,
        config: GameConfig,
    ) -> Option<GameError> {
        if !config_valid(config) {
            Some(GameError::InvalidGameConfig)
        } else if caller != pre.owner {
            Some(GameError::CallerIsNotOwner)
        } else {
            None
        }
    }

    /// How staging the next configuration relates states and result.  The
    /// current rules stay in force; only the staged slot changes.
    pub open spec fn set_next_game_config_rel(
        pre: RPSGame,
        caller: u64,
        config: GameConfig,
        post: RPSGame,
        r: Result<(), GameError>,
    ) -> bool {
        match Self::set_next_game_config_decision(pre, caller, config) {
            Some(e) => r == Err::<(), GameError>(e) && post == pre,
            None => r == Ok::<(), GameError>(()) && post == RPSGame {
                next_game_config: Some(config),
                ..pre
            },
        }
    }

    /// Creates a fresh engine with the given owner, rules and initial
    /// lobby, rejecting an invalid configuration.
    pub fn new(owner: u64, config: GameConfig, initial_lobby: Vec<u64>, now: u64) -> (r: Result<
        RPSGame,
        GameError,
    >)
        ensures
            r matches Ok(g) ==> {
                &&& g.wf()
                &&& g.owner == owner
                &&& g.game_config == config
                &&& distinct_seq(g.lobby@)
                &&& forall|y: u64|
                    #![trigger g.lobby@.contains(y)]
                    #![trigger initial_lobby@.contains(y)]
                    g.lobby@.contains(y) <==> initial_lobby@.contains(y)
                &&& g.stage is Preparation
                &&& g.bettors@.len() == 0
                &&& g.next_game_config is None
                &&& g.current_stage_start_timestamp == now
                &&& g.pot == 0
            },
            r is Ok <==> config_valid(config),
            r is Err ==> r == Err::<RPSGame, GameError>(GameError::InvalidGameConfig),
    {
        if let Err(e) = validate_game_config(&config) {
            return Err(e);
        }
        let mut lobby: Vec<u64> = Vec::new();
        let mut i: usize = 0;
        while i < initial_lobby.len()
            invariant
                i <= initial_lobby.len(),
                distinct_seq(lobby@),
                forall|y: u64|
                    lobby@.contains(y) <==> initial_lobby@.take(i as int).contains(y),
            decreases initial_lobby.len() - i,
        {
            let ghost pre = lobby@;
            addrs_insert(&mut lobby, initial_lobby[i]);
            assert forall|y: u64|
                lobby@.contains(y) <==> initial_lobby@.take(i as int + 1).contains(y) by {
                let shorter = initial_lobby@.take(i as int);
                let longer = initial_lobby@.take(i as int + 1);
                assert(longer == shorter.push(initial_lobby@[i as int]));
                assert(lobby@.contains(y) <==> (pre.contains(y) || y == initial_lobby@[i as int]));
                assert(longer[i as int] == initial_lobby@[i as int]);
                if longer.contains(y) {
                    let k = choose|k: int| 0 <= k < longer.len() && longer[k] == y;
                    if k < i {
                        assert(shorter[k] == y);
                    }
                }
                if shorter.contains(y) {
                    let k = choose|k: int| 0 <= k < shorter.len() && shorter[k] == y;
                    assert(longer[k] == y);
                }
            }
            i = i + 1;
        }
        assert(initial_lobby@.take(initial_lobby@.len() as int) == initial_lobby@);
        Ok(
            RPSGame {
                owner,
                lobby,
                game_config: config,
                stage: GameStage::Preparation,
                encrypted_moves: Vec::new(),
                player_moves: Vec::new(),
                bettors: Vec::new(),
                next_game_config: None,
                current_stage_start_timestamp: now,
                pot: 0,
            },
        )
    }

    /// Rejects callers other than the owner.
    pub fn validate_source_is_owner(&self, caller: u64) -> (r: Result<(), GameError>)
        ensures
            r is Ok <==> caller == self.owner,
            r is Err ==> r == Err::<(), GameError>(GameError::CallerIsNotOwner),
    {
        if caller != self.owner {
            Err(GameError::CallerIsNotOwner)
        } else {
            Ok(())
        }
    }

    /// Rejects a payment below the bet.
    pub fn validate_bet(&self, value: u128) -> (r: Result<(), GameError>)
        ensures
            r is Ok <==> value >= self.game_config.bet_size,
            r is Err ==> r == Err::<(), GameError>(GameError::BetIsTooLow),
    {
        if self.game_config.bet_size > value {
            Err(GameError::BetIsTooLow)
        } else {
            Ok(())
        }
    }

    /// Rejects when a game is running.
    pub fn validate_game_is_not_in_progress(&self) -> (r: Result<(), GameError>)
        ensures
            r is Ok <==> !self.spec_in_progress(),
            r is Err ==> r == Err::<(), GameError>(GameError::GameIsInProgress),
    {
        if self.stage.game_is_in_progress() {
            Err(GameError::GameIsInProgress)
        } else {
            Ok(())
        }
    }

    /// Rejects when no game is running.
    pub fn validate_game_is_in_progress(&self) -> (r: Result<(), GameError>)
        ensures
            r is Ok <==> self.spec_in_progress(),
            r is Err ==> r == Err::<(), GameError>(GameError::GameIsNotInProgress),
    {
        if !self.stage.game_is_in_progress() {
            Err(GameError::GameIsNotInProgress)
        } else {
            Ok(())
        }
    }

    /// Rejects a player already waiting in the lobby.
    pub fn validate_there_is_no_such_player(&self, player: u64) -> (r: Result<(), GameError>)
        ensures
            r is Ok <==> !self.lobby@.contains(player),
            r is Err ==> r == Err::<(), GameError>(GameError::PlayerAlreadyInLobby),
    {
        if addrs_contain(&self.lobby, player) {
            Err(GameError::PlayerAlreadyInLobby)
        } else {
            Ok(())
        }
    }

    /// Rejects a registration when the lobby is at capacity.
    pub fn validate_there_is_place_for_player(&self) -> (r: Result<(), GameError>)
        ensures
            r is Ok <==> self.lobby@.len() < self.game_config.players_count_limit as int,
            r is Err ==> r == Err::<(), GameError>(GameError::LobbyIsFull),
    {
        if self.lobby.len() >= self.game_config.players_count_limit as usize {
            Err(GameError::LobbyIsFull)
        } else {
            Ok(())
        }
    }

    /// Admits `caller` to the lobby against a payment covering the bet; the
    /// excess is returned as change.
    pub fn register(&mut self, caller: u64, value: u128) -> (r: Result<u128, GameError>)
        requires
            old(self).wf(),
            old(self).pot + value <= u128::MAX,
        ensures
            final(self).wf(),
            Self::register_rel(*old(self), caller, value, *final(self), r),
    {
        if let Err(e) = self.validate_game_is_not_in_progress() {
            return Err(e);
        }
        if let Err(e) = self.validate_bet(value) {
            return Err(e);
        }
        if let Err(e) = self.validate_there_is_no_such_player(caller) {
            return Err(e);
        }
        if let Err(e) = self.validate_there_is_place_for_player() {
            return Err(e);
        }
        let change = value - self.game_config.bet_size;
        self.lobby.push(caller);
        addrs_insert(&mut self.bettors, caller);
        self.pot = self.pot + self.game_config.bet_size;
        Ok(change)
    }

    /// Owner edit: admits `player` to the lobby without payment.
    pub fn add_player(&mut self, caller: u64, player: u64) -> (r: Result<(), GameError>)
        requires
            old(self).wf(),
        ensures
            final(self).wf(),
            Self::add_player_rel(*old(self), caller, player, *final(self), r),
    {
        if let Err(e) = self.validate_source_is_owner(caller) {
            return Err(e);
        }
        if let Err(e) = self.validate_game_is_not_in_progress() {
            return Err(e);
        }
        if let Err(e) = self.validate_there_is_no_such_player(player) {
            return Err(e);
        }
        self.lobby.push(player);
        Ok(())
    }

    /// Owner edit: removes `player` from the lobby.
    pub fn remove_player(&mut self, caller: u64, player: u64) -> (r: Result<(), GameError>)
        requires
            old(self).wf(),
        ensures
            final(self).wf(),
            Self::remove_player_rel(*old(self), caller, player, *final(self), r),
    {
        if let Err(e) = self.validate_source_is_owner(caller) {
            return Err(e);
        }
        if let Err(e) = self.validate_game_is_not_in_progress() {
            return Err(e);
        }
        if !addrs_contain(&self.lobby, player) {
            return Err(GameError::NoSuchPlayerInLobby);
        }
        addrs_remove(&mut self.lobby, player);
        Ok(())
    }

    /// Owner edit: replaces the lobby with the given players.
    pub fn set_lobby(&mut self, caller: u64, players: &Vec<u64>) -> (r: Result<(), GameError>)
        requires
            old(self).wf(),
        ensures
            final(self).wf(),
            Self::set_lobby_rel(*old(self), caller, players@, *final(self), r),
    {
        if let Err(e) = self.validate_source_is_owner(caller) {
            return Err(e);
        }
        if let Err(e) = self.validate_game_is_not_in_progress() {
            return Err(e);
        }
        let mut lobby: Vec<u64> = Vec::new();
        let mut i: usize = 0;
        while i < players.len()
            invariant
                i <= players.len(),
                distinct_seq(lobby@),
                forall|y: u64| lobby@.contains(y) <==> players@.take(i as int).contains(y),
            decreases players.len() - i,
        {
            let ghost pre = lobby@;
            addrs_insert(&mut lobby, players[i]);
            assert forall|y: u64|
                lobby@.contains(y) <==> players@.take(i as int + 1).contains(y) by {
                let shorter = players@.take(i as int);
                let longer = players@.take(i as int + 1);
                assert(longer == shorter.push(players@[i as int]));
                assert(lobby@.contains(y) <==> (pre.contains(y) || y == players@[i as int]));
                assert(longer[i as int] == players@[i as int]);
                if longer.contains(y) {
                    let k = choose|k: int| 0 <= k < longer.len() && longer[k] == y;
                    if k < i {
                        assert(shorter[k] == y);
                    }
                }
                if shorter.contains(y) {
                    let k = choose|k: int| 0 <= k < shorter.len() && shorter[k] == y;
                    assert(longer[k] == y);
                }
            }
            i = i + 1;
        }
        assert(players@.take(players@.len() as int) == players@);
        self.lobby = lobby;
        Ok(())
    }

    /// Owner edit: changes the bet collected from future registrations and
    /// first moves.
    pub fn set_bet_size(&mut self, caller: u64, bet_size: u128) -> (r: Result<(), GameError>)
        requires
            old(self).wf(),
        ensures
            final(self).wf(),
            Self::set_bet_size_rel(*old(self), caller, bet_size, *final(self), r),
    {
        if let Err(e) = self.validate_source_is_owner(caller) {
            return Err(e);
        }
        if let Err(e) = self.validate_game_is_not_in_progress() {
            return Err(e);
        }
        self.game_config.bet_size = bet_size;
        Ok(())
    }

    /// Owner edit: stages rules for the next game.  The rules of the
    /// current game stay in force until it resolves.
    pub fn set_next_game_config(&mut self, caller: u64, config: GameConfig) -> (r: Result<
        (),
        GameError,
    >)
        requires
            old(self).wf(),
        ensures
            final(self).wf(),
            Self::set_next_game_config_rel(*old(self), caller, config, *final(self), r),
    {
        if let Err(e) = validate_game_config(&config) {
            return Err(e);
        }
        if let Err(e) = self.validate_source_is_owner(caller) {
            return Err(e);
        }
        self.next_game_config = Some(config);
        Ok(())
    }

    /// Answers a read-only query about the current state.
    pub fn state(&self, query: State) -> (r: StateReply)
        requires
            self.wf(),
        ensures
            match query {
                State::Config => r == StateReply::Config(self.game_config),
                State::LobbyList => r matches StateReply::LobbyList(l) && l@ == self.lobby@,
                State::GameState => r matches StateReply::GameStage(s) && crate::stage::stage_like(
                    self.stage,
                    s,
                ),
                State::CurrentStageTimestamp => r == StateReply::CurrentStageTimestamp(
                    self.current_stage_start_timestamp,
                ),
            },
    {
        match query {
            State::Config => StateReply::Config(self.game_config),
            State::LobbyList => StateReply::LobbyList(addrs_clone(&self.lobby)),
            State::GameState => StateReply::GameStage(
                match &self.stage {
                    GameStage::Preparation => GameStage::Preparation,
                    GameStage::InProgress(d) => GameStage::InProgress(d.duplicate()),
                    GameStage::Reveal(d) => GameStage::Reveal(d.duplicate()),
                },
            ),
            State::CurrentStageTimestamp => StateReply::CurrentStageTimestamp(
                self.current_stage_start_timestamp,
            ),
        }
    }
}

} // verus!
