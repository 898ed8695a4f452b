#![allow(dead_code)]

use rock_paper_scissors::{
    commitment_of, Action, ActionOutcome, Event, GameConfig, GameError, GameStage, Move, RPSGame,
    StageDescription, State, StateReply,
};

fn config(bet_size: u128) -> GameConfig {
    GameConfig {
        bet_size,
        players_count_limit: 5,
        entry_timeout: 10_000,
        move_timeout: 10_000,
        reveal_timeout: 10_000,
    }
}

fn plain_move(users_move: Move, password: &str) -> Vec<u8> {
    format!("{}{}", users_move.number(), password).into_bytes()
}

fn make_move(
    game: &mut RPSGame,
    now: u64,
    player: u64,
    users_move: Move,
    value: u128,
) -> Result<ActionOutcome, GameError> {
    let hash = commitment_of(&plain_move(users_move, "salt"));
    game.handle(player, value, now, Action::MakeMove(hash)).outcome
}

fn reveal_plain(
    game: &mut RPSGame,
    now: u64,
    player: u64,
    users_move: Move,
) -> Result<ActionOutcome, GameError> {
    game.handle(player, 0, now, Action::Reveal(plain_move(users_move, "salt"))).outcome
}

#[test]
fn queries_report_config_lobby_stage_and_clock() {
    let game = RPSGame::new(1, config(1000), vec![5, 4], 77).unwrap();
    assert_eq!(game.state(State::Config), StateReply::Config(config(1000)));
    assert_eq!(game.state(State::LobbyList), StateReply::LobbyList(vec![5, 4]));
    assert_eq!(game.state(State::GameState), StateReply::GameStage(GameStage::Preparation));
    assert_eq!(game.state(State::CurrentStageTimestamp), StateReply::CurrentStageTimestamp(77));
}

#[test]
fn the_lobby_list_holds_each_player_once() {
    let game = RPSGame::new(1, config(1000), vec![5, 4, 5, 4, 4], 0).unwrap();
    assert_eq!(game.state(State::LobbyList), StateReply::LobbyList(vec![5, 4]));
}

#[test]
fn an_entry_timeout_with_a_short_lobby_only_restarts_the_clock() {
    let mut game = RPSGame::new(1, config(1000), vec![1], 0).unwrap();
    let pays = game.change_stage_by_timeout_if_needed(20_000);
    assert_eq!(pays, Vec::<(u64, u128)>::new());
    assert_eq!(game.state(State::GameState), StateReply::GameStage(GameStage::Preparation));
    assert_eq!(
        game.state(State::CurrentStageTimestamp),
        StateReply::CurrentStageTimestamp(20_000)
    );
}

#[test]
fn an_entry_timeout_with_two_players_opens_the_round() {
    let mut game = RPSGame::new(1, config(1000), vec![1, 2], 0).unwrap();
    let pays = game.change_stage_by_timeout_if_needed(10_000);
    assert_eq!(pays, Vec::<(u64, u128)>::new());
    assert_eq!(game.state(State::GameState), StateReply::GameStage(GameStage::Preparation));
    let pays = game.change_stage_by_timeout_if_needed(10_001);
    assert_eq!(pays, Vec::<(u64, u128)>::new());
    assert_eq!(
        game.state(State::GameState),
        StateReply::GameStage(GameStage::InProgress(StageDescription {
            anticipated_players: vec![1, 2],
            finished_players: Vec::new(),
        }))
    );
}

#[test]
fn a_move_timeout_with_no_moves_only_restarts_the_clock() {
    let mut game = RPSGame::new(1, config(1000), vec![1, 2], 0).unwrap();
    game.change_stage_by_timeout_if_needed(10_001);
    let pays = game.change_stage_by_timeout_if_needed(30_000);
    assert_eq!(pays, Vec::<(u64, u128)>::new());
    assert_eq!(
        game.state(State::GameState),
        StateReply::GameStage(GameStage::InProgress(StageDescription {
            anticipated_players: vec![1, 2],
            finished_players: Vec::new(),
        }))
    );
    assert_eq!(
        game.state(State::CurrentStageTimestamp),
        StateReply::CurrentStageTimestamp(30_000)
    );
}

#[test]
fn a_reveal_timeout_with_no_reveals_only_restarts_the_clock() {
    let mut game = RPSGame::new(1, config(1000), vec![1, 2], 0).unwrap();
    make_move(&mut game, 0, 1, Move::Rock, 1000).expect("move accepted");
    make_move(&mut game, 0, 2, Move::Paper, 1000).expect("move accepted");
    let pays = game.change_stage_by_timeout_if_needed(50_000);
    assert_eq!(pays, Vec::<(u64, u128)>::new());
    assert_eq!(
        game.state(State::CurrentStageTimestamp),
        StateReply::CurrentStageTimestamp(50_000)
    );
    match game.state(State::GameState) {
        StateReply::GameStage(GameStage::Reveal(_)) => {},
        other => panic!("unexpected stage: {:?}", other),
    }
}

#[test]
fn a_reveal_timeout_resolves_the_round_among_the_recorded_reveals() {
    let mut game = RPSGame::new(1, config(1000), vec![1, 2, 3], 0).unwrap();
    make_move(&mut game, 0, 1, Move::Rock, 1000).expect("move accepted");
    make_move(&mut game, 0, 2, Move::Paper, 1000).expect("move accepted");
    make_move(&mut game, 0, 3, Move::Scissors, 1000).expect("move accepted");
    reveal_plain(&mut game, 0, 1, Move::Rock).expect("reveal accepted");
    let pays = game.change_stage_by_timeout_if_needed(50_000);
    assert_eq!(pays, vec![(1, 3000)]);
    assert_eq!(game.state(State::GameState), StateReply::GameStage(GameStage::Preparation));
}

#[test]
fn the_first_payment_returns_the_excess_and_later_payments_pass_through() {
    let mut game = RPSGame::new(1, config(1000), vec![2], 0).unwrap();
    let outcome = game.handle(1, 1123, 0, Action::Register).outcome.expect("registered");
    assert_eq!(outcome.event, Event::PlayerRegistred);
    assert_eq!(outcome.change, 123);
    let outcome = make_move(&mut game, 0, 1, Move::Rock, 50).expect("move accepted");
    assert_eq!(outcome.change, 50);
    let outcome = make_move(&mut game, 0, 2, Move::Paper, 1777).expect("move accepted");
    assert_eq!(outcome.change, 777);
}

#[test]
fn a_lone_dominant_move_wins_the_whole_pot() {
    let mut game = RPSGame::new(1, config(1000), vec![1, 2, 3, 4], 0).unwrap();
    for (player, users_move) in
        [(1, Move::Rock), (2, Move::Paper), (3, Move::Rock), (4, Move::Rock)]
    {
        make_move(&mut game, 0, player, users_move, 1000).expect("move accepted");
    }
    for (player, users_move) in [(1, Move::Rock), (2, Move::Paper), (3, Move::Rock)] {
        reveal_plain(&mut game, 0, player, users_move).expect("reveal accepted");
    }
    let outcome = reveal_plain(&mut game, 0, 4, Move::Rock).expect("round resolves");
    assert_eq!(
        outcome.event,
        Event::SuccessfulReveal(rock_paper_scissors::RevealResult::GameOver { winner: 2 })
    );
    assert_eq!(outcome.payouts, vec![(2, 4000)]);
}

#[test]
fn a_second_round_seeds_exactly_the_survivors() {
    let mut game = RPSGame::new(1, config(1000), vec![1, 2, 3, 4], 0).unwrap();
    for (player, users_move) in
        [(1, Move::Lizard), (2, Move::Paper), (3, Move::Lizard), (4, Move::Lizard)]
    {
        make_move(&mut game, 0, player, users_move, 1000).expect("move accepted");
    }
    for (player, users_move) in [(1, Move::Lizard), (2, Move::Paper), (3, Move::Lizard)] {
        reveal_plain(&mut game, 0, player, users_move).expect("reveal accepted");
    }
    let outcome = reveal_plain(&mut game, 0, 4, Move::Lizard).expect("round resolves");
    match outcome.event {
        Event::SuccessfulReveal(rock_paper_scissors::RevealResult::NextRoundStarted {
            mut players,
        }) => {
            players.sort();
            assert_eq!(players, vec![1, 3, 4]);
        },
        other => panic!("unexpected event: {:?}", other),
    }
    // The eliminated player may no longer move; the survivors may.
    assert!(make_move(&mut game, 0, 2, Move::Rock, 1000).is_err());
    make_move(&mut game, 0, 1, Move::Rock, 0).expect("move accepted");
    make_move(&mut game, 0, 3, Move::Paper, 0).expect("move accepted");
    make_move(&mut game, 0, 4, Move::Spock, 0).expect("move accepted");
}

#[test]
fn an_enormous_payment_returns_its_full_excess() {
    let mut game = RPSGame::new(1, config(1000), Vec::new(), 0).unwrap();
    let outcome = game.handle(9, u128::MAX, 0, Action::Register).outcome.expect("registered");
    assert_eq!(outcome.change, u128::MAX - 1000);
    let err = game.handle(9, u128::MAX, 0, Action::Register).outcome.err().unwrap();
    assert_eq!(err, GameError::PlayerAlreadyInLobby);
}
