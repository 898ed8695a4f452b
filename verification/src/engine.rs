//! One incoming action, handled to completion: the lazy timeout transition
//! runs first, then the action itself, atomically.
//!
//! Value attached to an action is either collected into the pot (a bet) or
//! returned as change; actions that owe no bet pass the attached value
//! back.  A rejected action returns its attached value and changes nothing,
//! though a timeout transition that was already due still takes effect.

use vstd::prelude::*;

use crate::game::RPSGame;
use crate::protocol::{sum_payouts, Action, ActionOutcome, Event, GameError, HandleReply,
    RevealResult};
use crate::rounds::{end_round_rel, timeout_rel};

verus! {

/// A list of transfers pays out a non-negative amount.
pub proof fn lemma_sum_payouts_nonneg(s: Seq<(u64, u128)>)
    ensures
        sum_payouts(s) >= 0,
    decreases s.len(),
{
    if s.len() > 0 {
        lemma_sum_payouts_nonneg(s.drop_last());
    }
}

/// The single transfer `(to, amount)` pays out exactly `amount`.
pub proof fn lemma_sum_payouts_singleton(to: u64, amount: u128)
    ensures
        sum_payouts(seq![(to, amount)]) == amount,
{
    let s = seq![(to, amount)];
    assert(s.len() == 1);
    assert(s.last() == (to, amount));
    assert(s.drop_last() =~= Seq::<(u64, u128)>::empty());
    assert(sum_payouts(s.drop_last()) == 0);
}

/// Resolving a round conserves the pot: what the pot loses is exactly what
/// is paid out, and the payout never exceeds the pot.
pub proof fn lemma_end_round_balance(
    pre: RPSGame,
    now: u64,
    post: RPSGame,
    rr: RevealResult,
    pays: Seq<(u64, u128)>,
)
    requires
        end_round_rel(pre, now, post, rr, pays),
    ensures
        post.pot + sum_payouts(pays) == pre.pot,
{
    if crate::rounds::multiple_survivors(pre.player_moves@) {
    } else {
        let w = rr->winner;
        lemma_sum_payouts_singleton(w, pre.pot);
    }
}

/// The lazy timeout step conserves the pot.
pub proof fn lemma_timeout_balance(pre: RPSGame, now: u64, post: RPSGame, pays: Seq<(u64, u128)>)
    requires
        timeout_rel(pre, now, post, pays),
    ensures
        post.pot + sum_payouts(pays) == pre.pot,
{
    if !crate::rounds::timeout_due(pre, now) {
    } else {
        match pre.stage {
            crate::stage::GameStage::Preparation => {},
            crate::stage::GameStage::InProgress(d) => {
                if d.finished_players@.len() == 1 {
                    lemma_sum_payouts_singleton(d.finished_players@[0], pre.pot);
                }
            },
            crate::stage::GameStage::Reveal(d) => {
                if d.finished_players@.len() >= 1 {
                    let rr = choose|rr: RevealResult| end_round_rel(pre, now, post, rr, pays);
                    lemma_end_round_balance(pre, now, post, rr, pays);
                }
            },
        }
    }
}

impl RPSGame {
    /// Revealing conserves the pot: an accepted reveal pays out exactly
    /// what the pot loses.
    pub proof fn lemma_reveal_balance(
        pre: RPSGame,
        caller: u64,
        plain: Seq<u8>,
        now: u64,
        post: RPSGame,
        r: Result<(RevealResult, Vec<(u64, u128)>), GameError>,
    )
        requires
            Self::reveal_rel(pre, caller, plain, now, post, r),
            r is Ok,
        ensures
            (r matches Ok(ok) ==> post.pot + sum_payouts(ok.1@) == pre.pot),
    {
        let ok = r->Ok_0;
        match pre.stage {
            crate::stage::GameStage::Reveal(d) => {
                if d.anticipated_players@.len() > 1 {
                } else {
                    let mid = choose|mid: RPSGame|
                        #[trigger] Self::reveal_recorded(pre, caller, Self::plain_move(plain), mid)
                            && end_round_rel(mid, now, post, ok.0, ok.1@);
                    lemma_end_round_balance(mid, now, post, ok.0, ok.1@);
                }
            },
            _ => {},
        }
    }

    /// How dispatching one action relates states, the outcome event, the
    /// change returned and the transfers ordered.
    pub open spec fn action_rel(
        pre: RPSGame,
        caller: u64,
        value: u128,
        now: u64,
        action: Action,
        post: RPSGame,
        outcome: Result<ActionOutcome, GameError>,
    ) -> bool {
        match action {
            Action::Register => match outcome {
                Ok(o) => o.event == Event::PlayerRegistred && o.payouts@.len() == 0
                    && Self::register_rel(pre, caller, value, post, Ok(o.change)),
                Err(e) => Self::register_rel(pre, caller, value, post, Err(e)),
            },
            Action::AddPlayerInLobby(p) => match outcome {
                Ok(o) => o.event == Event::PlayerWasAdded(p) && o.change == value
                    && o.payouts@.len() == 0 && Self::add_player_rel(pre, caller, p, post, Ok(())),
                Err(e) => Self::add_player_rel(pre, caller, p, post, Err(e)),
            },
            Action::RemovePlayerFromLobby(p) => match outcome {
                Ok(o) => o.event == Event::PlayerWasRemoved(p) && o.change == value
                    && o.payouts@.len() == 0 && Self::remove_player_rel(
                    pre,
                    caller,
                    p,
                    post,
                    Ok(()),
                ),
                Err(e) => Self::remove_player_rel(pre, caller, p, post, Err(e)),
            },
            Action::SetLobbyPlayersList(list) => match outcome {
                Ok(o) => o.event == Event::LobbyPlayersListUpdated && o.change == value
                    && o.payouts@.len() == 0 && Self::set_lobby_rel(
                    pre,
                    caller,
                    list@,
                    post,
                    Ok(()),
                ),
                Err(e) => Self::set_lobby_rel(pre, caller, list@, post, Err(e)),
            },
            Action::SetBetSize(b) => match outcome {
                Ok(o) => o.event == Event::BetSizeWasChanged(b) && o.change == value
                    && o.payouts@.len() == 0 && Self::set_bet_size_rel(pre, caller, b, post, Ok(())),
                Err(e) => Self::set_bet_size_rel(pre, caller, b, post, Err(e)),
            },
            Action::MakeMove(hash) => match outcome {
                Ok(o) => o.event == Event::SuccessfulMove(caller) && o.payouts@.len() == 0
                    && Self::make_move_rel(pre, caller, value, hash@, now, post, Ok(o.change)),
                Err(e) => Self::make_move_rel(pre, caller, value, hash@, now, post, Err(e)),
            },
            Action::Reveal(plain) => match outcome {
                Ok(o) => o.change == value && (o.event matches Event::SuccessfulReveal(rr)
                    && Self::reveal_rel(pre, caller, plain@, now, post, Ok((rr, o.payouts)))),
                Err(e) => Self::reveal_rel(pre, caller, plain@, now, post, Err(e)),
            },
            Action::ChangeNextGameConfig(config) => match outcome {
                Ok(o) => o.event == Event::GameConfigChanged && o.change == value
                    && o.payouts@.len() == 0 && Self::set_next_game_config_rel(
                    pre,
                    caller,
                    config,
                    post,
                    Ok(()),
                ),
                Err(e) => Self::set_next_game_config_rel(pre, caller, config, post, Err(e)),
            },
            Action::StopGame => match outcome {
                Ok(o) => o.change == value && (o.event matches Event::GameWasStopped(rw)
                    && Self::stop_rel(pre, caller, now, post, Ok((rw, o.payouts)))),
                Err(e) => Self::stop_rel(pre, caller, now, post, Err(e)),
            },
        }
    }

    /// Handles one incoming action: applies any due timeout transition,
    /// then the action itself.  The reply carries the transfers the timeout
    /// ordered (owed even when the action is rejected), and the action's
    /// outcome.  Every unit of value is accounted for: what came in is
    /// either in the pot, paid out, or returned as change, and a rejected
    /// action returns its attached value in full.
    pub fn handle(&mut self, caller: u64, value: u128, now: u64, action: Action) -> (r:
        HandleReply)
        requires
            old(self).wf(),
            old(self).pot + value <= u128::MAX,
        ensures
            final(self).wf(),
            exists|mid: RPSGame|
                #[trigger] timeout_rel(*old(self), now, mid, r.timeout_payouts@) && Self::action_rel(
                    mid,
                    caller,
                    value,
                    now,
                    action,
                    *final(self),
                    r.outcome,
                ),
            (match r.outcome {
                Ok(o) => final(self).pot + sum_payouts(r.timeout_payouts@) + sum_payouts(
                    o.payouts@,
                ) + o.change == old(self).pot + value,
                Err(_) => final(self).pot + sum_payouts(r.timeout_payouts@) == old(self).pot,
            }),
    {
        let ghost gaction = action;
        let timeout_payouts = self.change_stage_by_timeout_if_needed(now);
        let ghost mid = *self;
        proof {
            lemma_timeout_balance(*old(self), now, mid, timeout_payouts@);
            lemma_sum_payouts_nonneg(timeout_payouts@);
        }
        let outcome: Result<ActionOutcome, GameError> = match action {
            Action::Register => match self.register(caller, value) {
                Ok(change) => Ok(
                    ActionOutcome { event: Event::PlayerRegistred, change, payouts: Vec::new() },
                ),
                Err(e) => Err(e),
            },
            Action::AddPlayerInLobby(player) => match self.add_player(caller, player) {
                Ok(_) => Ok(
                    ActionOutcome {
                        event: Event::PlayerWasAdded(player),
                        change: value,
                        payouts: Vec::new(),
                    },
                ),
                Err(e) => Err(e),
            },
            Action::RemovePlayerFromLobby(player) => match self.remove_player(caller, player) {
                Ok(_) => Ok(
                    ActionOutcome {
                        event: Event::PlayerWasRemoved(player),
                        change: value,
                        payouts: Vec::new(),
                    },
                ),
                Err(e) => Err(e),
            },
            Action::SetLobbyPlayersList(list) => match self.set_lobby(caller, &list) {
                Ok(_) => Ok(
                    ActionOutcome {
                        event: Event::LobbyPlayersListUpdated,
                        change: value,
                        payouts: Vec::new(),
                    },
                ),
                Err(e) => Err(e),
            },
            Action::SetBetSize(bet_size) => match self.set_bet_size(caller, bet_size) {
                Ok(_) => Ok(
                    ActionOutcome {
                        event: Event::BetSizeWasChanged(bet_size),
                        change: value,
                        payouts: Vec::new(),
                    },
                ),
                Err(e) => Err(e),
            },
            Action::MakeMove(hashed_move) => match self.make_move(caller, value, hashed_move, now) {
                Ok(change) => Ok(
                    ActionOutcome {
                        event: Event::SuccessfulMove(caller),
                        change,
                        payouts: Vec::new(),
                    },
                ),
                Err(e) => Err(e),
            },
            Action::Reveal(real_move) => match self.reveal_move(caller, real_move, now) {
                Ok((result, payouts)) => {
                    proof {
                        Self::lemma_reveal_balance(
                            mid,
                            caller,
                            gaction->Reveal_0@,
                            now,
                            *self,
                            Ok((result, payouts)),
                        );
                    }
                    Ok(
                        ActionOutcome {
                            event: Event::SuccessfulReveal(result),
                            change: value,
                            payouts,
                        },
                    )
                },
                Err(e) => Err(e),
            },
            Action::ChangeNextGameConfig(config) => match self.set_next_game_config(
                caller,
                config,
            ) {
                Ok(_) => Ok(
                    ActionOutcome {
                        event: Event::GameConfigChanged,
                        change: value,
                        payouts: Vec::new(),
                    },
                ),
                Err(e) => Err(e),
            },
            Action::StopGame => match self.stop_the_game(caller, now) {
                Ok((rewarded, payouts)) => Ok(
                    ActionOutcome {
                        event: Event::GameWasStopped(rewarded),
                        change: value,
                        payouts,
                    },
                ),
                Err(e) => Err(e),
            },
        };
        let r = HandleReply { timeout_payouts, outcome };
        proof {
            assert(Self::action_rel(mid, caller, value, now, gaction, *self, r.outcome));
            assert(timeout_rel(*old(self), now, mid, r.timeout_payouts@));
            assert(exists|g: RPSGame|
                #[trigger] timeout_rel(*old(self), now, g, r.timeout_payouts@)
                    && Self::action_rel(g, caller, value, now, gaction, *self, r.outcome));
            if r.outcome is Ok {
                let o = r.outcome->Ok_0;
                lemma_sum_payouts_nonneg(o.payouts@);
                assert(self.pot + sum_payouts(r.timeout_payouts@) + sum_payouts(o.payouts@)
                    + o.change == old(self).pot + value);
            } else {
                assert(self.pot + sum_payouts(r.timeout_payouts@) == old(self).pot);
            }
        }
        r
    }
}

} // verus!
