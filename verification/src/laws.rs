//! The engine's laws, stated once over the spec vocabulary.

use vstd::prelude::*;

use crate::game::RPSGame;
use crate::moves::Move;
use crate::resolver::{
    distinct_moves, has_only_loses, has_only_wins, lemma_survivor_exists,
    lemma_tally_extremes_unique, only_loses_in, only_wins_in, round_survives,
};
use crate::stage::GameStage;

verus! {

/// The round resolver's survivor characterization.  For two or three
/// distinct moves the survivors are the unique move with no losses when one
/// exists, else everything but the unique move with no wins when one
/// exists, else (a full cycle) every move present; for any other count
/// every move present survives.  The survivor set is never empty and never
/// leaves the moves present, and the no-loss and no-win moves are unique.
pub proof fn lemma_resolver_characterization(s: Seq<Move>)
    requires
        distinct_moves(s),
        s.len() >= 1,
    ensures
        ((s.len() == 2 || s.len() == 3) && has_only_wins(s) ==> (forall|m: Move|
            round_survives(s, m) <==> only_wins_in(s, m))),
        ((s.len() == 2 || s.len() == 3) && !has_only_wins(s) && has_only_loses(s) ==> (
        forall|m: Move| round_survives(s, m) <==> (s.contains(m) && !only_loses_in(s, m)))),
        ((s.len() == 2 || s.len() == 3) && !has_only_wins(s) && !has_only_loses(s) ==> (
        forall|m: Move| round_survives(s, m) <==> s.contains(m))),
        (!(s.len() == 2 || s.len() == 3) ==> (forall|m: Move|
            round_survives(s, m) <==> s.contains(m))),
        (exists|m: Move| round_survives(s, m)),
        (forall|m: Move| round_survives(s, m) ==> s.contains(m)),
        (forall|a: Move, b: Move| only_wins_in(s, a) && only_wins_in(s, b) ==> a == b),
        (forall|a: Move, b: Move| only_loses_in(s, a) && only_loses_in(s, b) ==> a == b),
{
    lemma_survivor_exists(s);
    lemma_tally_extremes_unique(s);
}

/// The stage invariant: the players a stage still waits for and the players
/// who have already acted never overlap.
pub proof fn lemma_stage_players_disjoint(g: RPSGame)
    requires
        g.wf(),
    ensures
        (match g.stage {
            GameStage::Preparation => true,
            GameStage::InProgress(d) => forall|p: u64|
                !(d.anticipated_players@.contains(p) && d.finished_players@.contains(p)),
            GameStage::Reveal(d) => forall|p: u64|
                !(d.anticipated_players@.contains(p) && d.finished_players@.contains(p)),
        }),
{
}

} // verus!
