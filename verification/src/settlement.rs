//! Settlement: stopping a running game and paying the players out.
//!
//! When the owner stops a game in which every current player has paid the
//! bet, the pot is divided into equal shares, one per player, and the
//! remainder of the division stays in the pot.  When some current player
//! has not paid yet, every bettor is refunded exactly the bet instead; if
//! the pot cannot cover those refunds the transfers would fail and the
//! whole action is rejected.

use vstd::arithmetic::div_mod::{lemma_fundamental_div_mod, lemma_mod_bound};
use vstd::prelude::*;

use crate::addrs::addrs_clone;
use crate::addrs::addrs_contain;
use crate::addrs::distinct_seq;
use crate::game::RPSGame;
use crate::protocol::{sum_payouts, GameError};
use crate::rounds::fresh_preparation;

verus! {

/// An equal-share division never pays out more than what is divided: `n`
/// shares of `pot / n` together never exceed `pot`.
pub proof fn lemma_equal_share_bound(pot: u128, n: u128)
    requires
        n >= 1,
    ensures
        n * (pot / n) <= pot,
{
    lemma_fundamental_div_mod(pot as int, n as int);
    lemma_mod_bound(pot as int, n as int);
}

/// For a positive price, `n` items cost no more than `pot` exactly when
/// `n` does not exceed `pot / price`.
pub proof fn lemma_affordable_iff_div(pot: u128, price: u128, n: u128)
    requires
        price >= 1,
    ensures
        (n <= pot / price) <==> (n * price <= pot),
{
    lemma_fundamental_div_mod(pot as int, price as int);
    lemma_mod_bound(pot as int, price as int);
    let q = pot as int / price as int;
    if n <= q {
        assert(n * price <= q * price) by (nonlinear_arith)
            requires
                0 <= n <= q,
                price >= 1,
        ;
        assert(q * price <= pot) by (nonlinear_arith)
            requires
                pot as int == price as int * q + pot as int % price as int,
                (pot as int % price as int) >= 0,
        ;
    }
    if n * price <= pot && n > q {
        assert((q + 1) * price <= n * price) by (nonlinear_arith)
            requires
                q + 1 <= n,
                price >= 1,
        ;
        assert(pot < (q + 1) * price) by (nonlinear_arith)
            requires
                pot as int == price as int * q + pot as int % price as int,
                (pot as int % price as int) < price as int,
        ;
    }
}

impl RPSGame {
    /// Every player of the current round has paid the bet.
    pub open spec fn all_players_bet(pre: RPSGame) -> bool {
        forall|p: u64| pre.stage.spec_is_player_in_game(p) ==> pre.bettors@.contains(p)
    }

    /// Whether the owner may stop the game now, and the error otherwise.
    pub open spec fn stop_decision(pre: RPSGame, caller: u64) -> Option<GameError> {
        if caller != pre.owner {
            Some(GameError::CallerIsNotOwner)
        } else if !pre.spec_in_progress() {
            Some(GameError::GameIsNotInProgress)
        } else if !Self::all_players_bet(pre) && pre.bettors@.len() * pre.game_config.bet_size
            > pre.pot {
            Some(GameError::InsufficientPot)
        } else {
            None
        }
    }

    /// How stopping the game relates states and result.  The result names
    /// the rewarded players and the transfers to them; the game then opens
    /// anew.  The transfers never exceed the pot, and what the pot loses is
    /// exactly what is paid out.
    pub open spec fn stop_rel(
        pre: RPSGame,
        caller: u64,
        now: u64,
        post: RPSGame,
        r: Result<(Vec<u64>, Vec<(u64, u128)>), GameError>,
    ) -> bool {
        match Self::stop_decision(pre, caller) {
            Some(e) => r == Err::<(Vec<u64>, Vec<(u64, u128)>), GameError>(e) && post == pre,
            None => r matches Ok(ok) && {
                let rewarded = ok.0@;
                let pays = ok.1@;
                &&& if Self::all_players_bet(pre) {
                    let share = pre.pot as int / rewarded.len() as int;
                    &&& distinct_seq(rewarded)
                    &&& rewarded.len() >= 1
                    &&& forall|p: u64|
                        rewarded.contains(p) <==> pre.stage.spec_is_player_in_game(p)
                    &&& pays.len() == rewarded.len()
                    &&& forall|i: int| 0 <= i < pays.len() ==> pays[i] == (rewarded[i], share as u128)
                    &&& post.pot == pre.pot - rewarded.len() * share
                } else {
                    &&& rewarded == pre.bettors@
                    &&& pays.len() == rewarded.len()
                    &&& forall|i: int|
                        0 <= i < pays.len() ==> pays[i] == (rewarded[i], pre.game_config.bet_size)
                    &&& post.pot == pre.pot - rewarded.len() * pre.game_config.bet_size
                }
                &&& sum_payouts(pays) <= pre.pot
                &&& post.pot + sum_payouts(pays) == pre.pot
                &&& fresh_preparation(pre, post, now)
            },
        }
    }

    /// Owner action: stops the running game, pays the players out and
    /// opens a new game.
    pub fn stop_the_game(&mut self, caller: u64, now: u64) -> (r: Result<
        (Vec<u64>, Vec<(u64, u128)>),
        GameError,
    >)
        requires
            old(self).wf(),
        ensures
            final(self).wf(),
            Self::stop_rel(*old(self), caller, now, *final(self), r),
    {
        if let Err(e) = self.validate_source_is_owner(caller) {
            return Err(e);
        }
        if let Err(e) = self.validate_game_is_in_progress() {
            return Err(e);
        }
        let players = match self.stage.current_players() {
            Some(p) => p,
            None => {
                proof {
                    assert(false);
                }
                Vec::new()
            },
        };
        proof {
            // A running round has at least two players, so the list is not
            // empty.
            let st = self.stage;
            match st {
                crate::stage::GameStage::InProgress(d) => {
                    if d.anticipated_players@.len() > 0 {
                        assert(d.anticipated_players@.contains(d.anticipated_players@[0]));
                        assert(self.stage.spec_is_player_in_game(d.anticipated_players@[0]));
                        assert(players@.contains(d.anticipated_players@[0]));
                    } else {
                        assert(d.finished_players@.contains(d.finished_players@[0]));
                        assert(self.stage.spec_is_player_in_game(d.finished_players@[0]));
                        assert(players@.contains(d.finished_players@[0]));
                    }
                },
                crate::stage::GameStage::Reveal(d) => {
                    if d.anticipated_players@.len() > 0 {
                        assert(d.anticipated_players@.contains(d.anticipated_players@[0]));
                        assert(self.stage.spec_is_player_in_game(d.anticipated_players@[0]));
                        assert(players@.contains(d.anticipated_players@[0]));
                    } else {
                        assert(d.finished_players@.contains(d.finished_players@[0]));
                        assert(self.stage.spec_is_player_in_game(d.finished_players@[0]));
                        assert(players@.contains(d.finished_players@[0]));
                    }
                },
                crate::stage::GameStage::Preparation => {
                    assert(false);
                },
            }
        }
        let mut all_bet = true;
        let mut i: usize = 0;
        while i < players.len()
            invariant
                i <= players.len(),
                all_bet == forall|k: int| 0 <= k < i ==> self.bettors@.contains(players@[k]),
                self.bettors@ == old(self).bettors@,
            decreases players.len() - i,
        {
            if !addrs_contain(&self.bettors, players[i]) {
                all_bet = false;
                assert(!self.bettors@.contains(players@[i as int]));
            }
            i = i + 1;
        }
        proof {
            if all_bet {
                assert forall|p: u64|
                    self.stage.spec_is_player_in_game(p) implies self.bettors@.contains(p) by {
                    assert(players@.contains(p));
                    let k = choose|k: int| 0 <= k < players@.len() && players@[k] == p;
                }
            } else {
                let k = choose|k: int|
                    0 <= k < players@.len() && !self.bettors@.contains(players@[k]);
                assert(self.stage.spec_is_player_in_game(players@[k]));
            }
        }
        if all_bet {
            let n = players.len() as u128;
            let part = self.pot / n;
            let mut pays: Vec<(u64, u128)> = Vec::new();
            let mut i: usize = 0;
            while i < players.len()
                invariant
                    i <= players.len(),
                    pays@.len() == i,
                    forall|k: int| 0 <= k < i ==> pays@[k] == (players@[k], part),
                    sum_payouts(pays@) == i * part,
                decreases players.len() - i,
            {
                let ghost pre_pays = pays@;
                pays.push((players[i], part));
                proof {
                    assert(pays@.drop_last() == pre_pays);
                    assert(sum_payouts(pays@) == sum_payouts(pre_pays) + part);
                    assert((i + 1) * part == i * part + part) by (nonlinear_arith);
                }
                i = i + 1;
            }
            proof {
                lemma_equal_share_bound(self.pot, n);
                lemma_fundamental_div_mod(self.pot as int, n as int);
                lemma_mod_bound(self.pot as int, n as int);
                assert(n * part == players@.len() * (self.pot as int / n as int));
            }
            let remainder = self.pot % n;
            proof {
                assert(remainder == self.pot - n * part);
            }
            self.pot = remainder;
            self.start_new_game(now);
            Ok((players, pays))
        } else {
            let bet = self.game_config.bet_size;
            let count = self.bettors.len() as u128;
            if bet > 0 && self.pot / bet < count {
                proof {
                    lemma_affordable_iff_div(self.pot, bet, count);
                }
                return Err(GameError::InsufficientPot);
            }
            proof {
                if bet > 0 {
                    lemma_affordable_iff_div(self.pot, bet, count);
                } else {
                    assert(count * bet == 0) by (nonlinear_arith)
                        requires
                            bet == 0,
                    ;
                }
                assert(count * bet <= self.pot);
            }
            let rewarded = addrs_clone(&self.bettors);
            let mut pays: Vec<(u64, u128)> = Vec::new();
            let mut i: usize = 0;
            while i < rewarded.len()
                invariant
                    i <= rewarded.len(),
                    pays@.len() == i,
                    forall|k: int| 0 <= k < i ==> pays@[k] == (rewarded@[k], bet),
                    sum_payouts(pays@) == i * bet,
                decreases rewarded.len() - i,
            {
                let ghost pre_pays = pays@;
                pays.push((rewarded[i], bet));
                proof {
                    assert(pays@.drop_last() == pre_pays);
                    assert(sum_payouts(pays@) == sum_payouts(pre_pays) + bet);
                    assert((i + 1) * bet == i * bet + bet) by (nonlinear_arith);
                }
                i = i + 1;
            }
            let total = count * bet;
            self.pot = self.pot - total;
            self.start_new_game(now);
            Ok((rewarded, pays))
        }
    }
}

} // verus!
