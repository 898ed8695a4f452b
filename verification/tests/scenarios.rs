#![allow(dead_code)]

use rock_paper_scissors::{
    commitment_of, Action, ActionOutcome, Event, GameConfig, GameError, GameStage, Move, RPSGame,
    RevealResult, State, StateReply,
};

fn config(bet_size: u128) -> GameConfig {
    GameConfig {
        bet_size,
        players_count_limit: 5,
        entry_timeout: 10_000,
        move_timeout: 10_000,
        reveal_timeout: 10_000,
    }
}

fn plain_move(users_move: Move, password: &str) -> Vec<u8> {
    format!("{}{}", users_move.number(), password).into_bytes()
}

fn make_move(
    game: &mut RPSGame,
    player: u64,
    users_move: Move,
    value: u128,
) -> Result<ActionOutcome, GameError> {
    let hash = commitment_of(&plain_move(users_move, "salt"));
    game.handle(player, value, 0, Action::MakeMove(hash)).outcome
}

fn reveal_plain(game: &mut RPSGame, player: u64, users_move: Move) -> Result<ActionOutcome, GameError> {
    game.handle(player, 0, 0, Action::Reveal(plain_move(users_move, "salt"))).outcome
}

fn sorted(mut v: Vec<u64>) -> Vec<u64> {
    v.sort();
    v
}

#[test]
fn three_players_rock_paper_lizard_form_a_cycle_and_all_advance() {
    let mut game = RPSGame::new(10, config(1000), vec![10, 20, 30], 0).unwrap();
    make_move(&mut game, 10, Move::Rock, 1000).expect("move accepted");
    make_move(&mut game, 20, Move::Paper, 1000).expect("move accepted");
    make_move(&mut game, 30, Move::Lizard, 1000).expect("move accepted");
    reveal_plain(&mut game, 10, Move::Rock).expect("reveal accepted");
    reveal_plain(&mut game, 20, Move::Paper).expect("reveal accepted");
    let outcome = reveal_plain(&mut game, 30, Move::Lizard).expect("round resolves");
    match outcome.event {
        Event::SuccessfulReveal(RevealResult::NextRoundStarted { players }) => {
            assert_eq!(sorted(players), vec![10, 20, 30]);
        },
        other => panic!("unexpected event: {:?}", other),
    }
}

#[test]
fn move_timeout_with_a_single_mover_pays_the_full_pot_without_a_reveal() {
    let mut game = RPSGame::new(1, config(1000), vec![1, 2], 0).unwrap();
    make_move(&mut game, 1, Move::Rock, 1000).expect("move accepted");
    let pays = game.change_stage_by_timeout_if_needed(10_000);
    assert_eq!(pays, Vec::<(u64, u128)>::new());
    let pays = game.change_stage_by_timeout_if_needed(10_001);
    assert_eq!(pays, vec![(1, 1000)]);
    assert_eq!(game.state(State::GameState), StateReply::GameStage(GameStage::Preparation));
}

#[test]
fn a_staged_config_applies_only_once_the_game_resolves() {
    let first = config(1000);
    let second = config(2500);
    let mut game = RPSGame::new(1, first, vec![1, 2], 0).unwrap();
    make_move(&mut game, 1, Move::Rock, 1000).expect("move accepted");
    make_move(&mut game, 2, Move::Scissors, 1000).expect("move accepted");
    let outcome = game.handle(1, 0, 0, Action::ChangeNextGameConfig(second)).outcome;
    assert_eq!(outcome.unwrap().event, Event::GameConfigChanged);
    assert_eq!(game.state(State::Config), StateReply::Config(first));
    reveal_plain(&mut game, 1, Move::Rock).expect("reveal accepted");
    let outcome = reveal_plain(&mut game, 2, Move::Scissors).expect("round resolves");
    match outcome.event {
        Event::SuccessfulReveal(RevealResult::GameOver { winner }) => assert_eq!(winner, 1),
        other => panic!("unexpected event: {:?}", other),
    }
    assert_eq!(game.state(State::Config), StateReply::Config(second));
}

#[test]
fn the_game_over_payout_is_the_whole_pot() {
    let mut game = RPSGame::new(1, config(1000), vec![1, 2], 0).unwrap();
    make_move(&mut game, 1, Move::Spock, 1234).expect("move accepted");
    make_move(&mut game, 2, Move::Lizard, 1000).expect("move accepted");
    reveal_plain(&mut game, 1, Move::Spock).expect("reveal accepted");
    let outcome = reveal_plain(&mut game, 2, Move::Lizard).expect("round resolves");
    assert_eq!(outcome.event, Event::SuccessfulReveal(RevealResult::GameOver { winner: 2 }));
    assert_eq!(outcome.payouts, vec![(2, 2000)]);
}

#[test]
fn the_equal_share_remainder_stays_in_the_pot_for_the_next_game() {
    let mut game = RPSGame::new(1, config(1000), Vec::new(), 0).unwrap();
    game.handle(1, 1000, 0, Action::Register).outcome.expect("registration accepted");
    game.handle(2, 1000, 0, Action::Register).outcome.expect("registration accepted");
    game.handle(1, 0, 0, Action::SetBetSize(999)).outcome.expect("bet changed");
    game.handle(3, 999, 0, Action::Register).outcome.expect("registration accepted");
    make_move(&mut game, 1, Move::Rock, 0).expect("move accepted");
    let outcome = game.handle(1, 0, 0, Action::StopGame).outcome.expect("the game stops");
    let mut pays = outcome.payouts;
    pays.sort();
    // 2999 split three ways: 999 each, remainder 2 retained.
    assert_eq!(pays, vec![(1, 999), (2, 999), (3, 999)]);

    // The next game collects 999 from each of two players; its winner is
    // paid those bets plus the retained remainder.
    game.handle(1, 999, 0, Action::Register).outcome.expect("registration accepted");
    game.handle(2, 999, 0, Action::Register).outcome.expect("registration accepted");
    make_move(&mut game, 1, Move::Rock, 0).expect("move accepted");
    make_move(&mut game, 2, Move::Paper, 0).expect("move accepted");
    reveal_plain(&mut game, 1, Move::Rock).expect("reveal accepted");
    let outcome = reveal_plain(&mut game, 2, Move::Paper).expect("round resolves");
    assert_eq!(outcome.event, Event::SuccessfulReveal(RevealResult::GameOver { winner: 2 }));
    assert_eq!(outcome.payouts, vec![(2, 2000)]);
}

#[test]
fn stopping_refunds_the_bettors_when_not_every_player_has_bet() {
    let mut game = RPSGame::new(1, config(1000), Vec::new(), 0).unwrap();
    game.handle(1, 1000, 0, Action::Register).outcome.expect("registration accepted");
    game.handle(2, 1000, 0, Action::Register).outcome.expect("registration accepted");
    game.handle(1, 0, 0, Action::AddPlayerInLobby(3)).outcome.expect("player added");
    make_move(&mut game, 1, Move::Rock, 0).expect("move accepted");
    let outcome = game.handle(1, 0, 0, Action::StopGame).outcome.expect("the game stops");
    match outcome.event {
        Event::GameWasStopped(players) => assert_eq!(sorted(players), vec![1, 2]),
        other => panic!("unexpected event: {:?}", other),
    }
    let mut pays = outcome.payouts;
    pays.sort();
    assert_eq!(pays, vec![(1, 1000), (2, 1000)]);
}

#[test]
fn stopping_fails_when_the_pot_cannot_cover_the_refunds() {
    let mut game = RPSGame::new(1, config(1000), Vec::new(), 0).unwrap();
    game.handle(1, 1000, 0, Action::Register).outcome.expect("registration accepted");
    game.handle(2, 1000, 0, Action::Register).outcome.expect("registration accepted");
    game.handle(1, 0, 0, Action::SetBetSize(5000)).outcome.expect("bet changed");
    game.handle(1, 0, 0, Action::AddPlayerInLobby(3)).outcome.expect("player added");
    make_move(&mut game, 1, Move::Rock, 0).expect("move accepted");
    let outcome = game.handle(1, 0, 0, Action::StopGame).outcome;
    assert_eq!(outcome.err().unwrap(), GameError::InsufficientPot);
}
