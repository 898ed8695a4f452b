//! The stage of a game and the players it is waiting for.

use vstd::prelude::*;

use crate::addrs::{addrs_clone, addrs_contain, addrs_union_into, distinct_seq};

verus! {

/// The players of the current round, split into those the stage still waits
/// for and those who have already acted.  The two groups never overlap.
#[derive(Clone, Debug, PartialEq, Eq)]
pub struct StageDescription {
    pub anticipated_players: Vec<u64>,
    pub finished_players: Vec<u64>,
}

/// The stage a game is in: gathering players, collecting committed moves, or
/// collecting reveals.
#[derive(Clone, Debug, PartialEq, Eq)]
pub enum GameStage {
    Preparation,
    InProgress(StageDescription),
    Reveal(StageDescription),
}

impl StageDescription {
    /// Both player groups are free of duplicates and disjoint.
    pub open spec fn wf(self) -> bool {
        &&& distinct_seq(self.anticipated_players@)
        &&& distinct_seq(self.finished_players@)
        &&& forall|p: u64|
            !(self.anticipated_players@.contains(p) && self.finished_players@.contains(p))
    }

    /// `p` belongs to this round.
    pub open spec fn spec_has_player(self, p: u64) -> bool {
        self.anticipated_players@.contains(p) || self.finished_players@.contains(p)
    }

    /// How many players belong to this round.
    pub open spec fn player_count(self) -> int {
        self.anticipated_players@.len() + self.finished_players@.len() as int
    }

    /// A copy of this description.
    pub fn duplicate(&self) -> (r: StageDescription)
        ensures
            r.anticipated_players@ == self.anticipated_players@,
            r.finished_players@ == self.finished_players@,
    {
        StageDescription {
            anticipated_players: addrs_clone(&self.anticipated_players),
            finished_players: addrs_clone(&self.finished_players),
        }
    }
}

/// Two stages have the same shape and the same player groups.
pub open spec fn stage_like(a: GameStage, b: GameStage) -> bool {
    match a {
        GameStage::Preparation => b is Preparation,
        GameStage::InProgress(x) => b matches GameStage::InProgress(y)
            && x.anticipated_players@ == y.anticipated_players@ && x.finished_players@
            == y.finished_players@,
        GameStage::Reveal(x) => b matches GameStage::Reveal(y) && x.anticipated_players@
            == y.anticipated_players@ && x.finished_players@ == y.finished_players@,
    }
}

impl GameStage {
    /// A game is running: moves are being collected or revealed.
    pub open spec fn spec_in_progress(self) -> bool {
        !(self is Preparation)
    }

    /// Whether a game is running.
    pub fn game_is_in_progress(&self) -> (r: bool)
        ensures
            r == self.spec_in_progress(),
    {
        match self {
            GameStage::Preparation => false,
            GameStage::InProgress(_) | GameStage::Reveal(_) => true,
        }
    }

    /// Whether the stage accepts committed moves: it is not the reveal
    /// stage.
    pub fn move_can_be_made(&self) -> (r: bool)
        ensures
            r == !(self is Reveal),
    {
        match self {
            GameStage::Preparation | GameStage::InProgress(_) => true,
            GameStage::Reveal(_) => false,
        }
    }

    /// `p` belongs to the round the stage describes.
    pub open spec fn spec_is_player_in_game(self, p: u64) -> bool {
        match self {
            GameStage::Preparation => false,
            GameStage::InProgress(d) => d.spec_has_player(p),
            GameStage::Reveal(d) => d.spec_has_player(p),
        }
    }

    /// Whether `player` belongs to the round the stage describes.
    pub fn is_player_in_game(&self, player: u64) -> (r: bool)
        ensures
            r == self.spec_is_player_in_game(player),
    {
        match self {
            GameStage::Preparation => false,
            GameStage::InProgress(description) => {
                addrs_contain(&description.anticipated_players, player) || addrs_contain(
                    &description.finished_players,
                    player,
                )
            },
            GameStage::Reveal(description) => {
                addrs_contain(&description.anticipated_players, player) || addrs_contain(
                    &description.finished_players,
                    player,
                )
            },
        }
    }

    /// The players of the current round, or nothing during preparation.
    pub fn current_players(&self) -> (r: Option<Vec<u64>>)
        requires
            match *self {
                GameStage::Preparation => true,
                GameStage::InProgress(d) => d.wf(),
                GameStage::Reveal(d) => d.wf(),
            },
        ensures
            match r {
                Some(players) => {
                    &&& self.spec_in_progress()
                    &&& distinct_seq(players@)
                    &&& forall|p: u64| players@.contains(p) <==> self.spec_is_player_in_game(p)
                },
                None => !self.spec_in_progress(),
            },
    {
        let description: &StageDescription;
        match self {
            GameStage::Preparation => {
                return None;
            },
            GameStage::InProgress(progress_description) => {
                description = progress_description;
            },
            GameStage::Reveal(reveal_description) => {
                description = reveal_description;
            },
        }
        let mut players = addrs_clone(&description.anticipated_players);
        addrs_union_into(&mut players, &description.finished_players);
        Some(players)
    }
}

} // verus!
