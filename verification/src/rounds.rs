//! Playing a round: committing moves, revealing them, resolving the round,
//! and the lazy timeout transitions.

use vstd::prelude::*;

use crate::addrs::{addrs_clone, addrs_contain, addrs_insert, addrs_remove, distinct_seq};
use crate::game::RPSGame;
use crate::hashing::{check_commitment, commitment_matches};
use crate::moves::{beats, spec_move_of_byte, Move};
use crate::protocol::{GameError, RevealResult};
use crate::resolver::{
    distinct_moves, lemma_distinct_moves_bound, lemma_survivor_exists, only_loses_in, only_wins_in,
    round_survives, tally_survives, winning_moves,
};
use crate::stage::{GameStage, StageDescription};
use crate::table::{has_key, keys_distinct, table_insert, table_keys, table_lookup};

verus! {

/// Some player revealed the move `m` this round.
pub open spec fn move_present(pm: Seq<(u64, Move)>, m: Move) -> bool {
    exists|i: int| 0 <= i < pm.len() && pm[i].1 == m
}

/// One if the condition holds, zero otherwise.
pub open spec fn b2i(b: bool) -> int {
    if b {
        1
    } else {
        0
    }
}

/// How many distinct moves were revealed this round.
pub open spec fn distinct_move_count(pm: Seq<(u64, Move)>) -> int {
    b2i(move_present(pm, Move::Rock)) + b2i(move_present(pm, Move::Paper)) + b2i(
        move_present(pm, Move::Scissors),
    ) + b2i(move_present(pm, Move::Lizard)) + b2i(move_present(pm, Move::Spock))
}

/// The move `m` was revealed and defeats every other revealed move.
pub open spec fn pm_only_wins(pm: Seq<(u64, Move)>, m: Move) -> bool {
    move_present(pm, m) && forall|o: Move| move_present(pm, o) && o != m ==> beats(m, o)
}

/// The move `m` was revealed and loses to every other revealed move.
pub open spec fn pm_only_loses(pm: Seq<(u64, Move)>, m: Move) -> bool {
    move_present(pm, m) && forall|o: Move| move_present(pm, o) && o != m ==> beats(o, m)
}

/// The move `m` survives the pairwise dominance tally of the revealed moves.
pub open spec fn pm_tally_survives(pm: Seq<(u64, Move)>, m: Move) -> bool {
    if exists|w: Move| pm_only_wins(pm, w) {
        pm_only_wins(pm, m)
    } else if exists|l: Move| pm_only_loses(pm, l) {
        move_present(pm, m) && !pm_only_loses(pm, m)
    } else {
        move_present(pm, m)
    }
}

/// The move `m` survives the round: the tally decides with two or three
/// distinct revealed moves, every revealed move survives otherwise.
pub open spec fn pm_round_survives(pm: Seq<(u64, Move)>, m: Move) -> bool {
    if distinct_move_count(pm) == 2 || distinct_move_count(pm) == 3 {
        pm_tally_survives(pm, m)
    } else {
        move_present(pm, m)
    }
}

/// Player `p` revealed a surviving move.
pub open spec fn player_survives(pm: Seq<(u64, Move)>, p: u64) -> bool {
    exists|i: int| 0 <= i < pm.len() && pm[i].0 == p && pm_round_survives(pm, pm[i].1)
}

/// More than one player survives the round.
pub open spec fn multiple_survivors(pm: Seq<(u64, Move)>) -> bool {
    exists|p: u64, q: u64| p != q && player_survives(pm, p) && player_survives(pm, q)
}

/// `post` is `pre` reset for a new game at time `now`: the stage returns to
/// preparation, the lobby, the bettors and both tables are cleared, and any
/// staged configuration takes effect.  Says nothing about the pot.
pub open spec fn fresh_preparation(pre: RPSGame, post: RPSGame, now: u64) -> bool {
    &&& post.owner == pre.owner
    &&& post.lobby@.len() == 0
    &&& post.bettors@.len() == 0
    &&& post.encrypted_moves@.len() == 0
    &&& post.player_moves@.len() == 0
    &&& post.stage is Preparation
    &&& post.game_config == (match pre.next_game_config {
        Some(c) => c,
        None => pre.game_config,
    })
    &&& post.next_game_config is None
    &&& post.current_stage_start_timestamp == now
}

/// How resolving a round relates the state before it to the state after it,
/// the reported result and the ordered transfers.  With more than one
/// survivor a new round starts among exactly the survivors; with a single
/// survivor the whole pot goes to that player and a new game opens.
pub open spec fn end_round_rel(
    pre: RPSGame,
    now: u64,
    post: RPSGame,
    result: RevealResult,
    pays: Seq<(u64, u128)>,
) -> bool {
    let pm = pre.player_moves@;
    if multiple_survivors(pm) {
        &&& result matches RevealResult::NextRoundStarted { players } && distinct_seq(players@)
            && (forall|p: u64| players@.contains(p) <==> player_survives(pm, p))
        &&& pays.len() == 0
        &&& post.stage matches GameStage::InProgress(d) && distinct_seq(d.anticipated_players@)
            && (forall|p: u64| d.anticipated_players@.contains(p) <==> player_survives(pm, p))
            && d.finished_players@.len() == 0
        &&& post.encrypted_moves@.len() == 0
        &&& post.player_moves@.len() == 0
        &&& post.current_stage_start_timestamp == now
        &&& post.owner == pre.owner
        &&& post.lobby@ == pre.lobby@
        &&& post.bettors@ == pre.bettors@
        &&& post.game_config == pre.game_config
        &&& post.next_game_config == pre.next_game_config
        &&& post.pot == pre.pot
    } else {
        &&& result matches RevealResult::GameOver { winner } && player_survives(pm, winner)
            && pays == seq![(winner, pre.pot)]
        &&& fresh_preparation(pre, post, now)
        &&& post.pot == 0
    }
}

/// A sequence of distinct moves has as many elements as there are moves
/// occurring in it.
proof fn lemma_distinct_seq_count(s: Seq<Move>)
    requires
        distinct_moves(s),
    ensures
        s.len() == b2i(s.contains(Move::Rock)) + b2i(s.contains(Move::Paper)) + b2i(
            s.contains(Move::Scissors),
        ) + b2i(s.contains(Move::Lizard)) + b2i(s.contains(Move::Spock)),
    decreases s.len(),
{
    if s.len() == 0 {
        assert(!s.contains(Move::Rock));
        assert(!s.contains(Move::Paper));
        assert(!s.contains(Move::Scissors));
        assert(!s.contains(Move::Lizard));
        assert(!s.contains(Move::Spock));
    } else {
        let x = s.last();
        let s1 = s.drop_last();
        assert(distinct_moves(s1));
        lemma_distinct_seq_count(s1);
        assert(s.contains(x)) by {
            assert(s[s.len() - 1] == x);
        }
        assert(!s1.contains(x)) by {
            if s1.contains(x) {
                let k = choose|k: int| 0 <= k < s1.len() && s1[k] == x;
                assert(s[k] == x && s[s.len() - 1] == x);
            }
        }
        assert forall|m: Move| m != x implies (s.contains(m) <==> s1.contains(m)) by {
            if s.contains(m) {
                let k = choose|k: int| 0 <= k < s.len() && s[k] == m;
                assert(k != s.len() - 1);
                assert(s1[k] == m);
            }
            if s1.contains(m) {
                let k = choose|k: int| 0 <= k < s1.len() && s1[k] == m;
                assert(s[k] == m);
            }
        }
    }
}

/// Carries the survivor characterization from a distinct listing `s` of the
/// revealed moves over to the revealed-move table itself.
proof fn lemma_present_bridge(pm: Seq<(u64, Move)>, s: Seq<Move>)
    requires
        distinct_moves(s),
        forall|m: Move| s.contains(m) <==> move_present(pm, m),
    ensures
        s.len() == distinct_move_count(pm),
        forall|m: Move| round_survives(s, m) <==> pm_round_survives(pm, m),
{
    lemma_distinct_seq_count(s);
    assert forall|m: Move| only_wins_in(s, m) <==> pm_only_wins(pm, m) by {
        if only_wins_in(s, m) {
            assert forall|o: Move| move_present(pm, o) && o != m implies beats(m, o) by {
                assert(s.contains(o));
            }
        }
        if pm_only_wins(pm, m) {
            assert forall|o: Move| s.contains(o) && o != m implies beats(m, o) by {
                assert(move_present(pm, o));
            }
        }
    }
    assert forall|m: Move| only_loses_in(s, m) <==> pm_only_loses(pm, m) by {
        if only_loses_in(s, m) {
            assert forall|o: Move| move_present(pm, o) && o != m implies beats(o, m) by {
                assert(s.contains(o));
            }
        }
        if pm_only_loses(pm, m) {
            assert forall|o: Move| s.contains(o) && o != m implies beats(o, m) by {
                assert(move_present(pm, o));
            }
        }
    }
    assert((exists|w: Move| only_wins_in(s, w)) <==> (exists|w: Move| pm_only_wins(pm, w))) by {
        if exists|w: Move| only_wins_in(s, w) {
            let w = choose|w: Move| only_wins_in(s, w);
            assert(pm_only_wins(pm, w));
        }
        if exists|w: Move| pm_only_wins(pm, w) {
            let w = choose|w: Move| pm_only_wins(pm, w);
            assert(only_wins_in(s, w));
        }
    }
    assert((exists|l: Move| only_loses_in(s, l)) <==> (exists|l: Move| pm_only_loses(pm, l))) by {
        if exists|l: Move| only_loses_in(s, l) {
            let l = choose|l: Move| only_loses_in(s, l);
            assert(pm_only_loses(pm, l));
        }
        if exists|l: Move| pm_only_loses(pm, l) {
            let l = choose|l: Move| pm_only_loses(pm, l);
            assert(only_loses_in(s, l));
        }
    }
    assert forall|m: Move| round_survives(s, m) <==> pm_round_survives(pm, m) by {
        assert(tally_survives(s, m) <==> pm_tally_survives(pm, m));
    }
}

impl RPSGame {
    /// Discards all commitments and revealed moves.
    fn clear_moves(&mut self)
        ensures
            (*final(self) == RPSGame {
                encrypted_moves: final(self).encrypted_moves,
                player_moves: final(self).player_moves,
                ..*old(self)
            }),
            final(self).encrypted_moves@.len() == 0,
            final(self).player_moves@.len() == 0,
    {
        self.encrypted_moves.clear();
        self.player_moves.clear();
    }

    /// Returns to preparation for a new game: clears the tables, the lobby
    /// and the bettors, and rolls in any staged configuration.  The pot is
    /// left as it is.
    pub(crate) fn start_new_game(&mut self, now: u64)
        requires
            old(self).wf(),
        ensures
            final(self).wf(),
            fresh_preparation(*old(self), *final(self), now),
            final(self).pot == old(self).pot,
    {
        self.clear_moves();
        self.lobby.clear();
        self.bettors.clear();
        match self.next_game_config {
            Some(config) => {
                self.game_config = config;
                self.next_game_config = None;
            },
            None => {},
        }
        self.stage = GameStage::Preparation;
        self.current_stage_start_timestamp = now;
    }

    /// Resolves the round from the revealed moves.  Called when every
    /// player has revealed or the reveal timeout forced resolution with at
    /// least one reveal recorded.
    fn end_round(&mut self, now: u64) -> (r: (RevealResult, Vec<(u64, u128)>))
        requires
            old(self).wf(),
            old(self).stage matches GameStage::Reveal(d) && d.finished_players@.len() >= 1,
        ensures
            final(self).wf(),
            end_round_rel(*old(self), now, *final(self), r.0, r.1@),
    {
        let ghost pm = self.player_moves@;
        proof {
            let d = self.stage->Reveal_0;
            assert(d.finished_players@.contains(d.finished_players@[0]));
            assert(has_key(pm, d.finished_players@[0]));
        }
        // The distinct moves revealed this round.
        let mut set_of_moves: Vec<Move> = Vec::new();
        let mut i: usize = 0;
        while i < self.player_moves.len()
            invariant
                i <= self.player_moves.len(),
                self.player_moves@ == pm,
                distinct_moves(set_of_moves@),
                forall|m: Move|
                    set_of_moves@.contains(m) <==> exists|j: int|
                        0 <= j < i && pm[j].1 == m,
            decreases self.player_moves.len() - i,
        {
            let ghost pre = set_of_moves@;
            let mv = self.player_moves[i].1;
            crate::resolver::moves_insert(&mut set_of_moves, mv);
            assert forall|m: Move|
                set_of_moves@.contains(m) <==> exists|j: int| 0 <= j < i + 1 && pm[j].1 == m by {
                assert(pm[i as int].1 == mv);
                if set_of_moves@.contains(m) {
                    if pre.contains(m) {
                        let j = choose|j: int| 0 <= j < i && pm[j].1 == m;
                        assert(0 <= j < i + 1 && pm[j].1 == m);
                    } else {
                        assert(m == mv);
                        assert(0 <= i < i + 1 && pm[i as int].1 == m);
                    }
                }
                if exists|j: int| 0 <= j < i + 1 && pm[j].1 == m {
                    let j = choose|j: int| 0 <= j < i + 1 && pm[j].1 == m;
                    if j < i {
                        assert(pre.contains(m));
                    }
                }
            }
            i = i + 1;
        }
        assert(forall|m: Move| set_of_moves@.contains(m) <==> move_present(pm, m));
        proof {
            assert(move_present(pm, pm[0].1));
            assert(set_of_moves@.contains(pm[0].1));
            lemma_distinct_moves_bound(set_of_moves@);
            lemma_present_bridge(pm, set_of_moves@);
        }
        // The players whose revealed move survives.
        let n = set_of_moves.len();
        let next_round_players: Vec<u64> = if n == 1 || n == 4 || n == 5 {
            let keys = table_keys(&self.player_moves);
            proof {
                assert forall|p: u64| keys@.contains(p) <==> player_survives(pm, p) by {
                    if keys@.contains(p) {
                        let j = choose|j: int| 0 <= j < pm.len() && pm[j].0 == p;
                        assert(move_present(pm, pm[j].1));
                        assert(pm_round_survives(pm, pm[j].1));
                    }
                    if player_survives(pm, p) {
                        assert(has_key(pm, p));
                    }
                }
            }
            keys
        } else {
            let winners = winning_moves(&set_of_moves);
            let mut survivors: Vec<u64> = Vec::new();
            let mut i: usize = 0;
            while i < self.player_moves.len()
                invariant
                    i <= self.player_moves.len(),
                    self.player_moves@ == pm,
                    keys_distinct(pm),
                    distinct_seq(survivors@),
                    forall|m: Move| winners@.contains(m) <==> tally_survives(set_of_moves@, m),
                    forall|m: Move| set_of_moves@.contains(m) <==> move_present(pm, m),
                    distinct_moves(set_of_moves@),
                    forall|p: u64|
                        survivors@.contains(p) <==> exists|j: int|
                            0 <= j < i && pm[j].0 == p && winners@.contains(pm[j].1),
                decreases self.player_moves.len() - i,
            {
                let ghost pre = survivors@;
                let p = self.player_moves[i].0;
                let mv = self.player_moves[i].1;
                let ghost did_push = winners@.contains(mv);
                if crate::resolver::moves_contain(&winners, mv) {
                    assert(!pre.contains(p)) by {
                        if pre.contains(p) {
                            let j = choose|j: int|
                                0 <= j < i && pm[j].0 == p && winners@.contains(pm[j].1);
                            assert(pm[j].0 == pm[i as int].0);
                        }
                    }
                    survivors.push(p);
                    assert(survivors@ == pre.push(p));
                    assert forall|k: int, l: int|
                        0 <= k < l < survivors@.len() implies survivors@[k] != survivors@[l] by {
                        if l == survivors@.len() - 1 {
                            assert(survivors@[k] == pre[k]);
                            assert(pre.contains(pre[k]));
                        }
                    }
                }
                assert forall|q: u64| survivors@.contains(q) <==> (pre.contains(q) || (did_push
                    && q == p)) by {
                    if did_push {
                        assert(survivors@ == pre.push(p));
                        assert(survivors@[survivors@.len() - 1] == p);
                        if survivors@.contains(q) {
                            let k = choose|k: int| 0 <= k < survivors@.len() && survivors@[k] == q;
                            if k < survivors@.len() - 1 {
                                assert(pre[k] == q);
                            }
                        }
                        if pre.contains(q) {
                            let k = choose|k: int| 0 <= k < pre.len() && pre[k] == q;
                            assert(survivors@[k] == q);
                        }
                    } else {
                        assert(survivors@ == pre);
                    }
                }
                assert forall|q: u64|
                    survivors@.contains(q) <==> exists|j: int|
                        0 <= j < i + 1 && pm[j].0 == q && winners@.contains(pm[j].1) by {
                    assert(pm[i as int].0 == p && pm[i as int].1 == mv);
                    if survivors@.contains(q) {
                        if pre.contains(q) {
                            let j = choose|j: int|
                                0 <= j < i && pm[j].0 == q && winners@.contains(pm[j].1);
                            assert(0 <= j < i + 1 && pm[j].0 == q && winners@.contains(pm[j].1));
                        } else {
                            assert(did_push && q == p);
                            assert(0 <= i < i + 1 && pm[i as int].0 == q && winners@.contains(
                                pm[i as int].1,
                            ));
                        }
                    }
                    if exists|j: int| 0 <= j < i + 1 && pm[j].0 == q && winners@.contains(pm[j].1) {
                        let j = choose|j: int|
                            0 <= j < i + 1 && pm[j].0 == q && winners@.contains(pm[j].1);
                        if j < i {
                            assert(pre.contains(q));
                        } else {
                            assert(q == p && did_push);
                        }
                    }
                }
                i = i + 1;
            }
            proof {
                assert forall|p: u64| survivors@.contains(p) <==> player_survives(pm, p) by {
                    assert(distinct_move_count(pm) == 2 || distinct_move_count(pm) == 3);
                    if survivors@.contains(p) {
                        let j = choose|j: int|
                            0 <= j < pm.len() && pm[j].0 == p && winners@.contains(pm[j].1);
                        assert(tally_survives(set_of_moves@, pm[j].1));
                        assert(round_survives(set_of_moves@, pm[j].1));
                        assert(pm_round_survives(pm, pm[j].1));
                    }
                    if player_survives(pm, p) {
                        let j = choose|j: int|
                            0 <= j < pm.len() && pm[j].0 == p && pm_round_survives(pm, pm[j].1);
                        assert(round_survives(set_of_moves@, pm[j].1));
                        assert(tally_survives(set_of_moves@, pm[j].1));
                        assert(winners@.contains(pm[j].1));
                    }
                }
            }
            survivors
        };
        assert(forall|p: u64| next_round_players@.contains(p) <==> player_survives(pm, p));
        proof {
            // Some player always survives.
            lemma_survivor_exists(set_of_moves@);
            let m = choose|m: Move| round_survives(set_of_moves@, m);
            assert(pm_round_survives(pm, m));
            assert(move_present(pm, m));
            let j = choose|j: int| 0 <= j < pm.len() && pm[j].1 == m;
            assert(player_survives(pm, pm[j].0));
            assert(next_round_players@.contains(pm[j].0));
        }
        if next_round_players.len() > 1 {
            proof {
                let a = next_round_players@[0];
                let b = next_round_players@[1];
                assert(a != b);
                assert(next_round_players@.contains(a));
                assert(next_round_players@.contains(b));
                assert(player_survives(pm, a) && player_survives(pm, b));
                assert(multiple_survivors(pm));
            }
            let players_for_event = addrs_clone(&next_round_players);
            self.stage = GameStage::InProgress(
                StageDescription {
                    anticipated_players: next_round_players,
                    finished_players: Vec::new(),
                },
            );
            self.current_stage_start_timestamp = now;
            self.clear_moves();
            (RevealResult::NextRoundStarted { players: players_for_event }, Vec::new())
        } else {
            proof {
                if multiple_survivors(pm) {
                    let (p, q) = choose|p: u64, q: u64|
                        p != q && player_survives(pm, p) && player_survives(pm, q);
                    assert(next_round_players@.contains(p));
                    assert(next_round_players@.contains(q));
                    let kp = choose|k: int|
                        0 <= k < next_round_players@.len() && next_round_players@[k] == p;
                    let kq = choose|k: int|
                        0 <= k < next_round_players@.len() && next_round_players@[k] == q;
                    assert(kp == 0 && kq == 0);
                }
            }
            let winner = next_round_players[0];
            let mut payouts: Vec<(u64, u128)> = Vec::new();
            payouts.push((winner, self.pot));
            self.pot = 0;
            self.start_new_game(now);
            (RevealResult::GameOver { winner }, payouts)
        }
    }
}

/// The value a mover gets back: the full payment for a player who has
/// already paid the bet this game, the excess over the bet otherwise.
pub open spec fn move_change(pre: RPSGame, caller: u64, value: u128) -> u128 {
    if pre.bettors@.contains(caller) {
        value
    } else {
        (value - pre.game_config.bet_size) as u128
    }
}

impl RPSGame {
    /// Whether `caller` may commit a move now, and the error otherwise.
    /// During preparation any lobby member may open the game once at least
    /// two players wait; during a round only the players the stage waits
    /// for may move; during reveal nobody may.  A first payment of the game
    /// must cover the bet.
    pub open spec fn make_move_decision(pre: RPSGame, caller: u64, value: u128) -> Option<
        GameError,
    > {
        match pre.stage {
            GameStage::Preparation => if !pre.lobby@.contains(caller) {
                Some(GameError::PlayerNotInGame)
            } else if pre.lobby@.len() < 2 {
                Some(GameError::NotPlayersTurn)
            } else if !pre.bettors@.contains(caller) && value < pre.game_config.bet_size {
                Some(GameError::BetIsTooLow)
            } else {
                None
            },
            GameStage::InProgress(d) => if !d.anticipated_players@.contains(caller) {
                Some(GameError::PlayerNotInGame)
            } else if !pre.bettors@.contains(caller) && value < pre.game_config.bet_size {
                Some(GameError::BetIsTooLow)
            } else {
                None
            },
            GameStage::Reveal(_) => Some(GameError::NotPlayersTurn),
        }
    }

    /// How committing a move relates states and result.  A move submitted
    /// during preparation first starts the round with the whole lobby as
    /// anticipated players; the mover's commitment is stored and the mover
    /// crosses from anticipated to finished; when the last anticipated
    /// player moves, the reveal stage begins with all movers anticipated.
    pub open spec fn make_move_rel(
        pre: RPSGame,
        caller: u64,
        value: u128,
        hash: Seq<u8>,
        now: u64,
        post: RPSGame,
        r: Result<u128, GameError>,
    ) -> bool {
        match Self::make_move_decision(pre, caller, value) {
            Some(e) => r == Err::<u128, GameError>(e) && post == pre,
            None => {
                let ant0 = match pre.stage {
                    GameStage::Preparation => pre.lobby@,
                    GameStage::InProgress(d) => d.anticipated_players@,
                    GameStage::Reveal(d) => d.anticipated_players@,
                };
                let fin0 = match pre.stage {
                    GameStage::Preparation => Seq::<u64>::empty(),
                    GameStage::InProgress(d) => d.finished_players@,
                    GameStage::Reveal(d) => d.finished_players@,
                };
                &&& r == Ok::<u128, GameError>(move_change(pre, caller, value))
                &&& post.pot == pre.pot + (value - move_change(pre, caller, value))
                &&& forall|y: u64|
                    post.bettors@.contains(y) <==> (pre.bettors@.contains(y) || y == caller)
                &&& distinct_seq(post.bettors@)
                &&& post.encrypted_moves@.len() == pre.encrypted_moves@.len() + 1
                &&& post.encrypted_moves@.last().0 == caller
                &&& post.encrypted_moves@.last().1@ == hash
                &&& forall|i: int|
                    0 <= i < pre.encrypted_moves@.len() ==> post.encrypted_moves@[i]
                        == pre.encrypted_moves@[i]
                &&& post.player_moves@ == pre.player_moves@
                &&& post.owner == pre.owner
                &&& post.lobby@ == pre.lobby@
                &&& post.game_config == pre.game_config
                &&& post.next_game_config == pre.next_game_config
                &&& if ant0.len() == 1 {
                    &&& post.stage matches GameStage::Reveal(d2) && distinct_seq(
                        d2.anticipated_players@,
                    ) && (forall|p: u64|
                        d2.anticipated_players@.contains(p) <==> (fin0.contains(p) || p == caller))
                        && d2.anticipated_players@.len() == fin0.len() + 1
                        && d2.finished_players@.len() == 0
                    &&& post.current_stage_start_timestamp == now
                } else {
                    &&& post.stage matches GameStage::InProgress(d2) && distinct_seq(
                        d2.anticipated_players@,
                    ) && (forall|p: u64|
                        d2.anticipated_players@.contains(p) <==> (ant0.contains(p) && p != caller))
                        && d2.anticipated_players@.len() == ant0.len() - 1
                        && d2.finished_players@ == fin0.push(caller)
                    &&& post.current_stage_start_timestamp == (if pre.stage is Preparation {
                        now
                    } else {
                        pre.current_stage_start_timestamp
                    })
                }
            },
        }
    }

    /// An entry stored for `caller` is matched by the revealed bytes.
    pub open spec fn stored_commitment_matches(
        enc: Seq<(u64, Vec<u8>)>,
        caller: u64,
        plain: Seq<u8>,
    ) -> bool {
        exists|i: int| 0 <= i < enc.len() && enc[i].0 == caller && commitment_matches(
            enc[i].1@,
            plain,
        )
    }

    /// The move a reveal plaintext names, for plaintexts whose first byte
    /// encodes a move.
    pub open spec fn plain_move(plain: Seq<u8>) -> Move {
        match spec_move_of_byte(plain[0]) {
            Some(m) => m,
            None => Move::Rock,
        }
    }

    /// Whether `caller` may reveal `plain` now, and the error otherwise.
    /// Having already revealed and never having committed are distinct
    /// failures; a plaintext that does not hash to the stored commitment is
    /// cheating; a plaintext that names no move is rejected after the hash
    /// check.
    pub open spec fn reveal_decision(pre: RPSGame, caller: u64, plain: Seq<u8>) -> Option<
        GameError,
    > {
        match pre.stage {
            GameStage::Preparation => Some(GameError::NotPlayersTurn),
            GameStage::InProgress(_) => Some(GameError::NotPlayersTurn),
            GameStage::Reveal(d) => if !d.anticipated_players@.contains(caller) {
                if d.finished_players@.contains(caller) {
                    Some(GameError::PlayerAlreadyRevealed)
                } else {
                    Some(GameError::PlayerNotInGame)
                }
            } else if !Self::stored_commitment_matches(pre.encrypted_moves@, caller, plain) {
                Some(GameError::CheatingDetected)
            } else if plain.len() == 0 {
                Some(GameError::InvalidRevealedMove)
            } else if spec_move_of_byte(plain[0]) is None {
                Some(GameError::InvalidRevealedMove)
            } else {
                None
            },
        }
    }

    /// The reveal of `mv` by `caller` is recorded: the move is appended to
    /// the revealed moves and the caller crosses from anticipated to
    /// finished; nothing else changes.
    pub open spec fn reveal_recorded(pre: RPSGame, caller: u64, mv: Move, post: RPSGame) -> bool {
        match pre.stage {
            GameStage::Reveal(d) => {
                &&& post.stage matches GameStage::Reveal(d2) && distinct_seq(
                    d2.anticipated_players@,
                ) && (forall|p: u64|
                    d2.anticipated_players@.contains(p) <==> (d.anticipated_players@.contains(p)
                        && p != caller)) && d2.anticipated_players@.len()
                    == d.anticipated_players@.len() - 1 && d2.finished_players@
                    == d.finished_players@.push(caller)
                &&& post.player_moves@ == pre.player_moves@.push((caller, mv))
                &&& post.encrypted_moves@ == pre.encrypted_moves@
                &&& post.owner == pre.owner
                &&& post.lobby@ == pre.lobby@
                &&& post.bettors@ == pre.bettors@
                &&& post.game_config == pre.game_config
                &&& post.next_game_config == pre.next_game_config
                &&& post.pot == pre.pot
                &&& post.current_stage_start_timestamp == pre.current_stage_start_timestamp
            },
            GameStage::Preparation => false,
            GameStage::InProgress(_) => false,
        }
    }

    /// How revealing relates states and result.  While other players still
    /// owe a reveal the round merely records this one; the last owed reveal
    /// resolves the round.
    pub open spec fn reveal_rel(
        pre: RPSGame,
        caller: u64,
        plain: Seq<u8>,
        now: u64,
        post: RPSGame,
        r: Result<(RevealResult, Vec<(u64, u128)>), GameError>,
    ) -> bool {
        match Self::reveal_decision(pre, caller, plain) {
            Some(e) => r == Err::<(RevealResult, Vec<(u64, u128)>), GameError>(e) && post == pre,
            None => match pre.stage {
                GameStage::Reveal(d) => if d.anticipated_players@.len() > 1 {
                    r matches Ok(ok) && ok.0 is Continue && ok.1@.len() == 0
                        && Self::reveal_recorded(pre, caller, Self::plain_move(plain), post)
                } else {
                    r matches Ok(ok) && exists|mid: RPSGame|
                        #[trigger] Self::reveal_recorded(pre, caller, Self::plain_move(plain), mid)
                            && end_round_rel(mid, now, post, ok.0, ok.1@)
                },
                GameStage::Preparation => false,
                GameStage::InProgress(_) => false,
            },
        }
    }

    /// Assembles the reveal relation from its accepted-case pieces.
    proof fn lemma_reveal_rel_ok(
        pre: RPSGame,
        caller: u64,
        plain: Seq<u8>,
        now: u64,
        post: RPSGame,
        res: Result<(RevealResult, Vec<(u64, u128)>), GameError>,
    )
        requires
            Self::reveal_decision(pre, caller, plain) is None,
            pre.stage is Reveal,
            ({
                let d = pre.stage->Reveal_0;
                if d.anticipated_players@.len() > 1 {
                    res matches Ok(ok) && ok.0 is Continue && ok.1@.len() == 0
                        && Self::reveal_recorded(pre, caller, Self::plain_move(plain), post)
                } else {
                    res matches Ok(ok) && exists|mid: RPSGame|
                        #[trigger] Self::reveal_recorded(pre, caller, Self::plain_move(plain), mid)
                            && end_round_rel(mid, now, post, ok.0, ok.1@)
                }
            }),
        ensures
            Self::reveal_rel(pre, caller, plain, now, post, res),
    {
    }

    /// Rejects a caller who may not commit a move in the current stage.
    pub fn validate_player_can_make_a_move(&self, player: u64) -> (r: Result<(), GameError>)
        ensures
            (r == match self.stage {
                GameStage::Preparation => if !self.lobby@.contains(player) {
                    Err::<(), GameError>(GameError::PlayerNotInGame)
                } else if self.lobby@.len() < 2 {
                    Err::<(), GameError>(GameError::NotPlayersTurn)
                } else {
                    Ok::<(), GameError>(())
                },
                GameStage::InProgress(d) => if d.anticipated_players@.contains(player) {
                    Ok::<(), GameError>(())
                } else {
                    Err::<(), GameError>(GameError::PlayerNotInGame)
                },
                GameStage::Reveal(_) => Err::<(), GameError>(GameError::NotPlayersTurn),
            }),
    {
        match &self.stage {
            GameStage::Preparation => {
                if !addrs_contain(&self.lobby, player) {
                    Err(GameError::PlayerNotInGame)
                } else if self.lobby.len() < 2 {
                    Err(GameError::NotPlayersTurn)
                } else {
                    Ok(())
                }
            },
            GameStage::InProgress(description) => {
                if !addrs_contain(&description.anticipated_players, player) {
                    Err(GameError::PlayerNotInGame)
                } else {
                    Ok(())
                }
            },
            GameStage::Reveal(_) => Err(GameError::NotPlayersTurn),
        }
    }

    /// Rejects a caller who may not reveal in the current stage,
    /// distinguishing a player who already revealed from one who never
    /// belonged to the reveal.
    pub fn validate_player_can_reveal(&self, player: u64) -> (r: Result<(), GameError>)
        ensures
            (r == match self.stage {
                GameStage::Preparation => Err::<(), GameError>(GameError::NotPlayersTurn),
                GameStage::InProgress(_) => Err::<(), GameError>(GameError::NotPlayersTurn),
                GameStage::Reveal(d) => if d.anticipated_players@.contains(player) {
                    Ok::<(), GameError>(())
                } else if d.finished_players@.contains(player) {
                    Err::<(), GameError>(GameError::PlayerAlreadyRevealed)
                } else {
                    Err::<(), GameError>(GameError::PlayerNotInGame)
                },
            }),
    {
        match &self.stage {
            GameStage::Preparation | GameStage::InProgress(_) => Err(GameError::NotPlayersTurn),
            GameStage::Reveal(description) => {
                if !addrs_contain(&description.anticipated_players, player) {
                    if addrs_contain(&description.finished_players, player) {
                        Err(GameError::PlayerAlreadyRevealed)
                    } else {
                        Err(GameError::PlayerNotInGame)
                    }
                } else {
                    Ok(())
                }
            },
        }
    }

    /// Rejects a reveal whose bytes do not hash to the stored commitment.
    pub fn validate_reveal(&self, player: u64, real_move: &Vec<u8>) -> (r: Result<(), GameError>)
        requires
            keys_distinct(self.encrypted_moves@),
            has_key(self.encrypted_moves@, player),
        ensures
            r is Ok <==> Self::stored_commitment_matches(
                self.encrypted_moves@,
                player,
                real_move@,
            ),
            r is Err ==> r == Err::<(), GameError>(GameError::CheatingDetected),
    {
        let stored = match table_lookup(&self.encrypted_moves, player) {
            Some(c) => c,
            None => {
                proof {
                    assert(false);
                }
                return Err(GameError::CheatingDetected);
            },
        };
        let ghost i = choose|i: int|
            #![auto]
            0 <= i < self.encrypted_moves@.len() && self.encrypted_moves@[i].0 == player
                && self.encrypted_moves@[i].1 == *stored;
        if check_commitment(stored, real_move) {
            assert(Self::stored_commitment_matches(self.encrypted_moves@, player, real_move@));
            Ok(())
        } else {
            proof {
                if Self::stored_commitment_matches(self.encrypted_moves@, player, real_move@) {
                    let j = choose|j: int|
                        0 <= j < self.encrypted_moves@.len() && self.encrypted_moves@[j].0
                            == player && commitment_matches(
                            self.encrypted_moves@[j].1@,
                            real_move@,
                        );
                    assert(j == i);
                }
            }
            Err(GameError::CheatingDetected)
        }
    }

    /// Opens the round: the whole lobby becomes the anticipated movers.
    fn transit_to_in_progress_stage_from_preparation(&mut self, now: u64)
        requires
            old(self).wf(),
            old(self).stage is Preparation,
            old(self).lobby@.len() >= 2,
        ensures
            final(self).wf(),
            (final(self).stage matches GameStage::InProgress(d) && d.anticipated_players@ == old(
                self,
            ).lobby@ && d.finished_players@.len() == 0),
            final(self).current_stage_start_timestamp == now,
            final(self).owner == old(self).owner,
            final(self).lobby@ == old(self).lobby@,
            final(self).bettors@ == old(self).bettors@,
            final(self).game_config == old(self).game_config,
            final(self).next_game_config == old(self).next_game_config,
            final(self).pot == old(self).pot,
            final(self).encrypted_moves@ == old(self).encrypted_moves@,
            final(self).player_moves@ == old(self).player_moves@,
    {
        let progress_description = StageDescription {
            anticipated_players: addrs_clone(&self.lobby),
            finished_players: Vec::new(),
        };
        self.stage = GameStage::InProgress(progress_description);
        self.current_stage_start_timestamp = now;
    }

    /// Stores the commitment and moves the player from anticipated to
    /// finished.
    fn save_move(&mut self, player: u64, move_hash: Vec<u8>)
        requires
            old(self).wf(),
            (old(self).stage matches GameStage::InProgress(d)
                && d.anticipated_players@.contains(player)),
        ensures
            final(self).wf(),
            final(self).encrypted_moves@ == old(self).encrypted_moves@.push((player, move_hash)),
            (final(self).stage matches GameStage::InProgress(d2) && {
                let d = old(self).stage->InProgress_0;
                &&& distinct_seq(d2.anticipated_players@)
                &&& forall|p: u64|
                    d2.anticipated_players@.contains(p) <==> (d.anticipated_players@.contains(p)
                        && p != player)
                &&& d2.anticipated_players@.len() == d.anticipated_players@.len() - 1
                &&& d2.finished_players@ == d.finished_players@.push(player)
            }),
            final(self).owner == old(self).owner,
            final(self).lobby@ == old(self).lobby@,
            final(self).bettors@ == old(self).bettors@,
            final(self).game_config == old(self).game_config,
            final(self).next_game_config == old(self).next_game_config,
            final(self).pot == old(self).pot,
            final(self).player_moves@ == old(self).player_moves@,
            final(self).current_stage_start_timestamp == old(self).current_stage_start_timestamp,
    {
        let (mut ant, mut fin) = match &self.stage {
            GameStage::InProgress(d) => (
                addrs_clone(&d.anticipated_players),
                addrs_clone(&d.finished_players),
            ),
            _ => {
                proof {
                    assert(false);
                }
                (Vec::new(), Vec::new())
            },
        };
        proof {
            let d = self.stage->InProgress_0;
            assert(!d.finished_players@.contains(player));
            assert(!has_key(self.encrypted_moves@, player));
        }
        table_insert(&mut self.encrypted_moves, player, move_hash);
        addrs_remove(&mut ant, player);
        let ghost fin0 = fin@;
        fin.push(player);
        assert(fin@ == fin0.push(player));
        assert forall|k: int, l: int| 0 <= k < l < fin@.len() implies fin@[k] != fin@[l] by {
            if l == fin@.len() - 1 {
                assert(fin0.contains(fin@[k]));
            }
        }
        assert forall|p: u64| fin@.contains(p) implies (fin0.contains(p) || p == player) by {
            let k = choose|k: int| 0 <= k < fin@.len() && fin@[k] == p;
            if k < fin@.len() - 1 {
                assert(fin0[k] == p);
            }
        }
        assert forall|p: u64| fin0.contains(p) implies fin@.contains(p) by {
            let k = choose|k: int| 0 <= k < fin0.len() && fin0[k] == p;
            assert(fin@[k] == p);
        }
        assert(fin@.contains(player)) by {
            assert(fin@[fin@.len() - 1] == player);
        }
        self.stage = GameStage::InProgress(
            StageDescription { anticipated_players: ant, finished_players: fin },
        );
        proof {
            let d = old(self).stage->InProgress_0;
            let d2 = self.stage->InProgress_0;
            assert forall|p: u64|
                !(d2.anticipated_players@.contains(p) && d2.finished_players@.contains(p)) by {
                if d2.anticipated_players@.contains(p) && d2.finished_players@.contains(p) {
                    assert(d.anticipated_players@.contains(p) && p != player);
                    assert(d.finished_players@.contains(p) || p == player);
                }
            }
            assert(d2.wf());
            assert forall|p: u64|
                has_key(self.encrypted_moves@, p) <==> d2.finished_players@.contains(p) by {
                assert(has_key(self.encrypted_moves@, p) <==> (has_key(
                    old(self).encrypted_moves@,
                    p,
                ) || p == player));
                assert(d2.finished_players@.contains(p) <==> (d.finished_players@.contains(p) || p
                    == player));
            }
            assert(self.wf());
        }
    }

    /// Begins the reveal stage once every anticipated player has moved: the
    /// finished movers become the anticipated revealers.
    fn try_to_transit_to_reveal_stage_after_move(&mut self, now: u64)
        requires
            old(self).wf(),
            old(self).stage matches GameStage::InProgress(_),
        ensures
            final(self).wf(),
            ({
                let d = old(self).stage->InProgress_0;
                if d.anticipated_players@.len() == 0 {
                    &&& final(self).stage matches GameStage::Reveal(d2)
                        && d2.anticipated_players@ == d.finished_players@
                        && d2.finished_players@.len() == 0
                    &&& final(self).current_stage_start_timestamp == now
                    &&& final(self).owner == old(self).owner
                    &&& final(self).lobby@ == old(self).lobby@
                    &&& final(self).bettors@ == old(self).bettors@
                    &&& final(self).game_config == old(self).game_config
                    &&& final(self).next_game_config == old(self).next_game_config
                    &&& final(self).pot == old(self).pot
                    &&& final(self).encrypted_moves@ == old(self).encrypted_moves@
                    &&& final(self).player_moves@ == old(self).player_moves@
                } else {
                    *final(self) == *old(self)
                }
            }),
    {
        let anticipated_empty = match &self.stage {
            GameStage::InProgress(d) => d.anticipated_players.len() == 0,
            _ => {
                proof {
                    assert(false);
                }
                false
            },
        };
        if anticipated_empty {
            let fin = match &self.stage {
                GameStage::InProgress(d) => addrs_clone(&d.finished_players),
                _ => {
                    proof {
                        assert(false);
                    }
                    Vec::new()
                },
            };
            self.stage = GameStage::Reveal(
                StageDescription { anticipated_players: fin, finished_players: Vec::new() },
            );
            self.current_stage_start_timestamp = now;
        }
    }

    /// Accepts a committed move from `caller` against any owed payment.
    pub fn make_move(&mut self, caller: u64, value: u128, move_hash: Vec<u8>, now: u64) -> (r:
        Result<u128, GameError>)
        requires
            old(self).wf(),
            old(self).pot + value <= u128::MAX,
        ensures
            final(self).wf(),
            Self::make_move_rel(*old(self), caller, value, move_hash@, now, *final(self), r),
    {
        if let Err(e) = self.validate_player_can_make_a_move(caller) {
            return Err(e);
        }
        let already_bettor = addrs_contain(&self.bettors, caller);
        if !already_bettor && value < self.game_config.bet_size {
            return Err(GameError::BetIsTooLow);
        }
        let change = if already_bettor {
            value
        } else {
            value - self.game_config.bet_size
        };
        self.pot = self.pot + (value - change);
        addrs_insert(&mut self.bettors, caller);
        if !self.stage.game_is_in_progress() {
            self.transit_to_in_progress_stage_from_preparation(now);
        }
        let ghost ant0 = match old(self).stage {
            GameStage::Preparation => old(self).lobby@,
            GameStage::InProgress(d) => d.anticipated_players@,
            GameStage::Reveal(d) => d.anticipated_players@,
        };
        let ghost fin0 = match old(self).stage {
            GameStage::Preparation => Seq::<u64>::empty(),
            GameStage::InProgress(d) => d.finished_players@,
            GameStage::Reveal(d) => d.finished_players@,
        };
        proof {
            let d = self.stage->InProgress_0;
            assert(d.anticipated_players@ == ant0);
            assert(d.finished_players@ =~= fin0);
        }
        self.save_move(caller, move_hash);
        self.try_to_transit_to_reveal_stage_after_move(now);
        proof {
            if ant0.len() == 1 {
                let d2 = self.stage->Reveal_0;
                assert(d2.anticipated_players@ == fin0.push(caller));
                assert(d2.anticipated_players@[fin0.len() as int] == caller);
                assert forall|p: u64|
                    d2.anticipated_players@.contains(p) <==> (fin0.contains(p) || p == caller) by {
                    if d2.anticipated_players@.contains(p) {
                        let k = choose|k: int|
                            0 <= k < d2.anticipated_players@.len() && d2.anticipated_players@[k]
                                == p;
                        if k < fin0.len() {
                            assert(fin0[k] == p);
                        }
                    }
                    if fin0.contains(p) {
                        let k = choose|k: int| 0 <= k < fin0.len() && fin0[k] == p;
                        assert(d2.anticipated_players@[k] == p);
                    }
                }
            }
        }
        Ok(change)
    }

    /// Records the revealed move and moves the player from anticipated to
    /// finished.
    fn save_real_move(&mut self, player: u64, users_move: Move)
        requires
            old(self).wf(),
            (old(self).stage matches GameStage::Reveal(d)
                && d.anticipated_players@.contains(player)),
        ensures
            final(self).wf(),
            Self::reveal_recorded(*old(self), player, users_move, *final(self)),
            (final(self).stage matches GameStage::Reveal(d2) && d2.finished_players@.len() >= 1),
    {
        let (mut ant, mut fin) = match &self.stage {
            GameStage::Reveal(d) => (
                addrs_clone(&d.anticipated_players),
                addrs_clone(&d.finished_players),
            ),
            _ => {
                proof {
                    assert(false);
                }
                (Vec::new(), Vec::new())
            },
        };
        proof {
            let d = self.stage->Reveal_0;
            assert(!d.finished_players@.contains(player));
            assert(!has_key(self.player_moves@, player));
        }
        table_insert(&mut self.player_moves, player, users_move);
        addrs_remove(&mut ant, player);
        let ghost fin0 = fin@;
        fin.push(player);
        assert(fin@ == fin0.push(player));
        assert forall|k: int, l: int| 0 <= k < l < fin@.len() implies fin@[k] != fin@[l] by {
            if l == fin@.len() - 1 {
                assert(fin0.contains(fin@[k]));
            }
        }
        assert forall|p: u64| fin@.contains(p) implies (fin0.contains(p) || p == player) by {
            let k = choose|k: int| 0 <= k < fin@.len() && fin@[k] == p;
            if k < fin@.len() - 1 {
                assert(fin0[k] == p);
            }
        }
        assert forall|p: u64| fin0.contains(p) implies fin@.contains(p) by {
            let k = choose|k: int| 0 <= k < fin0.len() && fin0[k] == p;
            assert(fin@[k] == p);
        }
        assert(fin@.contains(player)) by {
            assert(fin@[fin@.len() - 1] == player);
        }
        self.stage = GameStage::Reveal(
            StageDescription { anticipated_players: ant, finished_players: fin },
        );
        proof {
            let d = old(self).stage->Reveal_0;
            let d2 = self.stage->Reveal_0;
            assert forall|p: u64|
                !(d2.anticipated_players@.contains(p) && d2.finished_players@.contains(p)) by {
                if d2.anticipated_players@.contains(p) && d2.finished_players@.contains(p) {
                    assert(d.anticipated_players@.contains(p) && p != player);
                    assert(d.finished_players@.contains(p) || p == player);
                }
            }
            assert(d2.wf());
            assert forall|p: u64| d2.spec_has_player(p) <==> d.spec_has_player(p) by {
                if p == player {
                    assert(d.anticipated_players@.contains(p));
                    assert(d2.finished_players@.contains(p));
                }
            }
            assert forall|p: u64|
                has_key(self.encrypted_moves@, p) <==> d2.spec_has_player(p) by {
                assert(has_key(self.encrypted_moves@, p) <==> d.spec_has_player(p));
            }
            assert forall|p: u64|
                has_key(self.player_moves@, p) <==> d2.finished_players@.contains(p) by {
                assert(has_key(self.player_moves@, p) <==> (has_key(old(self).player_moves@, p)
                    || p == player));
                assert(d2.finished_players@.contains(p) <==> (d.finished_players@.contains(p) || p
                    == player));
            }
            assert(self.wf());
        }
    }

    /// Resolves the round if every anticipated player has revealed, and
    /// otherwise reports that the round continues.
    fn end_round_if_needed(&mut self, now: u64) -> (r: (RevealResult, Vec<(u64, u128)>))
        requires
            old(self).wf(),
            (old(self).stage matches GameStage::Reveal(d) && d.finished_players@.len() >= 1),
        ensures
            final(self).wf(),
            ({
                let d = old(self).stage->Reveal_0;
                if d.anticipated_players@.len() == 0 {
                    end_round_rel(*old(self), now, *final(self), r.0, r.1@)
                } else {
                    r.0 is Continue && r.1@.len() == 0 && *final(self) == *old(self)
                }
            }),
    {
        let anticipated_empty = match &self.stage {
            GameStage::Reveal(d) => d.anticipated_players.len() == 0,
            _ => {
                proof {
                    assert(false);
                }
                false
            },
        };
        if anticipated_empty {
            self.end_round(now)
        } else {
            (RevealResult::Continue, Vec::new())
        }
    }

    /// Accepts the revealed plaintext from `caller`, checks it against the
    /// stored commitment, and resolves the round if this was the last owed
    /// reveal.
    pub fn reveal_move(&mut self, caller: u64, real_move: Vec<u8>, now: u64) -> (r: Result<
        (RevealResult, Vec<(u64, u128)>),
        GameError,
    >)
        requires
            old(self).wf(),
        ensures
            final(self).wf(),
            Self::reveal_rel(*old(self), caller, real_move@, now, *final(self), r),
    {
        if let Err(e) = self.validate_player_can_reveal(caller) {
            return Err(e);
        }
        proof {
            let d = self.stage->Reveal_0;
            assert(d.spec_has_player(caller));
            assert(has_key(self.encrypted_moves@, caller));
        }
        if let Err(e) = self.validate_reveal(caller, &real_move) {
            return Err(e);
        }
        if real_move.len() == 0 {
            return Err(GameError::InvalidRevealedMove);
        }
        let users_move = match Move::from_byte(real_move[0]) {
            Some(m) => m,
            None => {
                return Err(GameError::InvalidRevealedMove);
            },
        };
        self.save_real_move(caller, users_move);
        let ghost mid = *self;
        let result = self.end_round_if_needed(now);
        proof {
            let pre = *old(self);
            let plain = real_move@;
            assert(Self::reveal_decision(pre, caller, plain) is None);
            let d = pre.stage->Reveal_0;
            let d2 = mid.stage->Reveal_0;
            if d.anticipated_players@.len() > 1 {
                assert(d2.anticipated_players@.len() >= 1);
                assert(*self == mid);
                assert(Self::reveal_recorded(pre, caller, users_move, *self));
                assert(result.0 is Continue && result.1@.len() == 0);
            } else {
                assert(d2.anticipated_players@.len() == 0);
                assert(Self::reveal_recorded(pre, caller, users_move, mid));
                assert(end_round_rel(mid, now, *self, result.0, result.1@));
                assert(exists|m: RPSGame|
                    #[trigger] Self::reveal_recorded(pre, caller, users_move, m)
                        && end_round_rel(m, now, *self, result.0, result.1@));
            }
            assert(spec_move_of_byte(plain[0]) == Some(users_move));
            assert(Self::plain_move(plain) == users_move);
            let res = Ok::<(RevealResult, Vec<(u64, u128)>), GameError>(result);
            if d.anticipated_players@.len() > 1 {
                assert(res matches Ok(ok) && ok.0 is Continue && ok.1@.len() == 0
                    && Self::reveal_recorded(pre, caller, Self::plain_move(plain), *self));
            } else {
                assert(Self::reveal_recorded(pre, caller, Self::plain_move(plain), mid));
                assert(res matches Ok(ok) && exists|m: RPSGame|
                    #[trigger] Self::reveal_recorded(pre, caller, Self::plain_move(plain), m)
                        && end_round_rel(m, now, *self, ok.0, ok.1@));
            }
            Self::lemma_reveal_rel_ok(pre, caller, plain, now, *self, res);
        }
        Ok(result)
    }
}


/// The timeout configured for the current stage.
pub open spec fn stage_timeout(pre: RPSGame) -> u64 {
    match pre.stage {
        GameStage::Preparation => pre.game_config.entry_timeout,
        GameStage::InProgress(_) => pre.game_config.move_timeout,
        GameStage::Reveal(_) => pre.game_config.reveal_timeout,
    }
}

/// The current stage outlived its timeout at time `now`.
pub open spec fn timeout_due(pre: RPSGame, now: u64) -> bool {
    pre.current_stage_start_timestamp + stage_timeout(pre) < now
}

/// `pre` with only the stage clock restarted.
pub open spec fn clock_reset(pre: RPSGame, now: u64) -> RPSGame {
    RPSGame { current_stage_start_timestamp: now, ..pre }
}

/// Everything but the stage and the stage clock is unchanged.
pub open spec fn same_core(pre: RPSGame, post: RPSGame) -> bool {
    &&& post.owner == pre.owner
    &&& post.lobby@ == pre.lobby@
    &&& post.bettors@ == pre.bettors@
    &&& post.game_config == pre.game_config
    &&& post.next_game_config == pre.next_game_config
    &&& post.pot == pre.pot
    &&& post.encrypted_moves@ == pre.encrypted_moves@
    &&& post.player_moves@ == pre.player_moves@
}

/// How the lazy timeout step relates states and ordered transfers.  While
/// the stage is within its timeout nothing happens.  An elapsed preparation
/// timeout opens the round when at least two players wait, and otherwise
/// only restarts the clock.  An elapsed move timeout with a single mover
/// pays that mover the whole pot and opens a new game; with several movers
/// the reveal stage begins; with none the clock restarts.  An elapsed
/// reveal timeout resolves the round from the reveals recorded so far, or
/// only restarts the clock when there is none.
pub open spec fn timeout_rel(pre: RPSGame, now: u64, post: RPSGame, pays: Seq<(u64, u128)>) -> bool {
    if !timeout_due(pre, now) {
        post == pre && pays.len() == 0
    } else {
        match pre.stage {
            GameStage::Preparation => pays.len() == 0 && (if pre.lobby@.len() >= 2 {
                &&& post.stage matches GameStage::InProgress(d) && d.anticipated_players@
                    == pre.lobby@ && d.finished_players@.len() == 0
                &&& post.current_stage_start_timestamp == now
                &&& same_core(pre, post)
            } else {
                post == clock_reset(pre, now)
            }),
            GameStage::InProgress(d) => if d.finished_players@.len() == 0 {
                pays.len() == 0 && post == clock_reset(pre, now)
            } else if d.finished_players@.len() == 1 {
                &&& pays == seq![(d.finished_players@[0], pre.pot)]
                &&& fresh_preparation(pre, post, now)
                &&& post.pot == 0
            } else {
                &&& pays.len() == 0
                &&& post.stage matches GameStage::Reveal(d2) && d2.anticipated_players@
                    == d.finished_players@ && d2.finished_players@.len() == 0
                &&& post.current_stage_start_timestamp == now
                &&& same_core(pre, post)
            },
            GameStage::Reveal(d) => if d.finished_players@.len() == 0 {
                pays.len() == 0 && post == clock_reset(pre, now)
            } else {
                exists|rr: RevealResult| #[trigger] end_round_rel(pre, now, post, rr, pays)
            },
        }
    }
}

impl RPSGame {
    /// An elapsed preparation timeout: opens the round when at least two
    /// players wait in the lobby, otherwise restarts the clock.
    fn handle_preparation_timout(&mut self, now: u64)
        requires
            old(self).wf(),
            old(self).stage is Preparation,
            timeout_due(*old(self), now),
        ensures
            final(self).wf(),
            timeout_rel(*old(self), now, *final(self), Seq::<(u64, u128)>::empty()),
    {
        if self.lobby.len() <= 1 {
            self.current_stage_start_timestamp = now;
        } else {
            self.transit_to_in_progress_stage_from_preparation(now);
        }
    }

    /// An elapsed move timeout: pays a lone mover the pot and opens a new
    /// game, begins the reveal among several movers, restarts the clock
    /// when nobody moved.
    fn handle_moves_timout(&mut self, now: u64) -> (pays: Vec<(u64, u128)>)
        requires
            old(self).wf(),
            old(self).stage matches GameStage::InProgress(_),
            timeout_due(*old(self), now),
        ensures
            final(self).wf(),
            timeout_rel(*old(self), now, *final(self), pays@),
    {
        let (finished_count, winner, finished_clone) = match &self.stage {
            GameStage::InProgress(d) => {
                let l = d.finished_players.len();
                let w = if l >= 1 {
                    d.finished_players[0]
                } else {
                    0
                };
                let c = if l >= 2 {
                    addrs_clone(&d.finished_players)
                } else {
                    Vec::new()
                };
                (l, w, c)
            },
            _ => {
                proof {
                    assert(false);
                }
                (0, 0, Vec::new())
            },
        };
        if finished_count == 0 {
            self.current_stage_start_timestamp = now;
            return Vec::new();
        }
        if finished_count == 1 {
            let mut pays: Vec<(u64, u128)> = Vec::new();
            pays.push((winner, self.pot));
            self.pot = 0;
            self.start_new_game(now);
            proof {
                let d = old(self).stage->InProgress_0;
                assert(pays@ =~= seq![(d.finished_players@[0], old(self).pot)]);
            }
            return pays;
        }
        self.stage = GameStage::Reveal(
            StageDescription { anticipated_players: finished_clone, finished_players: Vec::new() },
        );
        self.current_stage_start_timestamp = now;
        proof {
            let d = old(self).stage->InProgress_0;
            let d2 = self.stage->Reveal_0;
            assert(d2.anticipated_players@ == d.finished_players@);
            assert forall|p: u64|
                has_key(self.encrypted_moves@, p) <==> d2.spec_has_player(p) by {
                assert(has_key(self.encrypted_moves@, p) <==> d.finished_players@.contains(p));
            }
            assert(self.wf());
        }
        Vec::new()
    }

    /// An elapsed reveal timeout: resolves the round from the reveals
    /// recorded so far, or restarts the clock when there is none.
    fn handle_reveal_timout(&mut self, now: u64) -> (pays: Vec<(u64, u128)>)
        requires
            old(self).wf(),
            old(self).stage matches GameStage::Reveal(_),
            timeout_due(*old(self), now),
        ensures
            final(self).wf(),
            timeout_rel(*old(self), now, *final(self), pays@),
    {
        let finished_count = match &self.stage {
            GameStage::Reveal(d) => d.finished_players.len(),
            _ => {
                proof {
                    assert(false);
                }
                0
            },
        };
        if finished_count == 0 {
            self.current_stage_start_timestamp = now;
            return Vec::new();
        }
        let (result, pays) = self.end_round(now);
        proof {
            let ghost_result = result;
            assert(end_round_rel(*old(self), now, *self, ghost_result, pays@));
            assert(exists|rr: RevealResult|
                #[trigger] end_round_rel(*old(self), now, *self, rr, pays@));
        }
        pays
    }

    /// Applies the lazy timeout transition that is due at `now`, if any,
    /// and returns the transfers it ordered.
    pub fn change_stage_by_timeout_if_needed(&mut self, now: u64) -> (pays: Vec<(u64, u128)>)
        requires
            old(self).wf(),
        ensures
            final(self).wf(),
            timeout_rel(*old(self), now, *final(self), pays@),
    {
        let timeout = match &self.stage {
            GameStage::Preparation => self.game_config.entry_timeout,
            GameStage::InProgress(_) => self.game_config.move_timeout,
            GameStage::Reveal(_) => self.game_config.reveal_timeout,
        };
        let end_time = (self.current_stage_start_timestamp as u128) + (timeout as u128);
        if !(end_time < now as u128) {
            return Vec::new();
        }
        let kind: u8 = match &self.stage {
            GameStage::Preparation => 0,
            GameStage::InProgress(_) => 1,
            GameStage::Reveal(_) => 2,
        };
        if kind == 0 {
            self.handle_preparation_timout(now);
            Vec::new()
        } else if kind == 1 {
            self.handle_moves_timout(now)
        } else {
            self.handle_reveal_timout(now)
        }
    }
}


} // verus!
