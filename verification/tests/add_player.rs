#![allow(dead_code)]

use rock_paper_scissors::{
    Action, ActionOutcome, Event, GameConfig, GameError, Move, RPSGame, RevealResult,
};

const OWNER: u64 = 3;
const COMMON_BET: u128 = 1_000_000;
const COMMON_TIMOUT: u64 = 10_000;

fn all_users() -> Vec<u64> {
    vec![3, 4, 5, 6]
}

fn test_config() -> GameConfig {
    GameConfig {
        bet_size: COMMON_BET,
        players_count_limit: 5,
        entry_timeout: COMMON_TIMOUT,
        move_timeout: COMMON_TIMOUT,
        reveal_timeout: COMMON_TIMOUT,
    }
}

fn init_with_users(players: &[u64]) -> RPSGame {
    RPSGame::new(OWNER, test_config(), players.to_vec(), 0).expect("the test config is valid")
}

fn common_init() -> RPSGame {
    init_with_users(&[3, 4, 5])
}

fn plain_move(users_move: Move, password: &str) -> Vec<u8> {
    format!("{}{}", users_move.number(), password).into_bytes()
}

fn move_hash(users_move: Move, password: &str) -> Vec<u8> {
    rock_paper_scissors::commitment_of(&plain_move(users_move, password))
}

fn try_to_move(
    game: &mut RPSGame,
    player: u64,
    users_move: Move,
    bet: u128,
) -> Result<ActionOutcome, GameError> {
    game.handle(player, bet, 0, Action::MakeMove(move_hash(users_move, "pass12"))).outcome
}

fn check_user_move(game: &mut RPSGame, player: u64, users_move: Move, bet: u128) {
    let outcome = try_to_move(game, player, users_move, bet).expect("the move is accepted");
    assert_eq!(outcome.event, Event::SuccessfulMove(player));
}

fn failure_user_move(game: &mut RPSGame, player: u64, users_move: Move, bet: u128) {
    assert!(try_to_move(game, player, users_move, bet).is_err());
}

fn try_to_reveal(
    game: &mut RPSGame,
    player: u64,
    users_move: Move,
) -> Result<ActionOutcome, GameError> {
    game.handle(player, 0, 0, Action::Reveal(plain_move(users_move, "pass12"))).outcome
}

fn check_user_reveal_with_continue(game: &mut RPSGame, player: u64, users_move: Move) {
    let outcome = try_to_reveal(game, player, users_move).expect("the reveal is accepted");
    assert_eq!(outcome.event, Event::SuccessfulReveal(RevealResult::Continue));
}

fn sorted(mut v: Vec<u64>) -> Vec<u64> {
    v.sort();
    v
}

fn reach_reveal_stage(game: &mut RPSGame, players: &[u64], moves: &[Move]) {
    assert_eq!(players.len(), moves.len());
    for (player, users_move) in players.iter().zip(moves.iter()) {
        check_user_move(game, *player, *users_move, COMMON_BET);
    }
}

fn play_round(game: &mut RPSGame, players: &[u64], moves: &[Move]) -> ActionOutcome {
    reach_reveal_stage(game, players, moves);
    for (player, users_move) in players.iter().zip(moves.iter()).take(players.len() - 1) {
        check_user_reveal_with_continue(game, *player, *users_move);
    }
    try_to_reveal(game, *players.last().unwrap(), *moves.last().unwrap())
        .expect("the round resolves")
}

fn check_add_player(game: &mut RPSGame, from: u64, player: u64) {
    let outcome = game
        .handle(from, 0, 0, Action::AddPlayerInLobby(player))
        .outcome
        .expect("the player is added");
    assert_eq!(outcome.event, Event::PlayerWasAdded(player));
}

fn failure_add_player(game: &mut RPSGame, from: u64, player: u64) {
    assert!(game.handle(from, 0, 0, Action::AddPlayerInLobby(player)).outcome.is_err());
}

fn check_remove_player(game: &mut RPSGame, from: u64, player: u64) {
    let outcome = game
        .handle(from, 0, 0, Action::RemovePlayerFromLobby(player))
        .outcome
        .expect("the player is removed");
    assert_eq!(outcome.event, Event::PlayerWasRemoved(player));
}

fn failure_remove_player(game: &mut RPSGame, from: u64, player: u64) {
    assert!(game.handle(from, 0, 0, Action::RemovePlayerFromLobby(player)).outcome.is_err());
}

fn check_change_lobby(game: &mut RPSGame, from: u64, players: &[u64]) {
    let outcome = game
        .handle(from, 0, 0, Action::SetLobbyPlayersList(players.to_vec()))
        .outcome
        .expect("the lobby is replaced");
    assert_eq!(outcome.event, Event::LobbyPlayersListUpdated);
}

fn failure_change_lobby(game: &mut RPSGame, from: u64, players: &[u64]) {
    assert!(
        game.handle(from, 0, 0, Action::SetLobbyPlayersList(players.to_vec())).outcome.is_err()
    );
}

fn check_stop_the_game(game: &mut RPSGame, from: u64, rewarded: &[u64]) {
    let outcome = game.handle(from, 0, 0, Action::StopGame).outcome.expect("the game stops");
    match outcome.event {
        Event::GameWasStopped(players) => {
            assert_eq!(sorted(players), sorted(rewarded.to_vec()));
        },
        other => panic!("unexpected event: {:?}", other),
    }
}

fn failure_stop_the_game(game: &mut RPSGame, from: u64) {
    assert!(game.handle(from, 0, 0, Action::StopGame).outcome.is_err());
}

#[test]
fn add_player_check_common() {
    let mut game = common_init();
    check_add_player(&mut game, 3, 6);
    failure_add_player(&mut game, 3, 4);
}

#[test]
fn check_move_after_adding() {
    let mut game = common_init();
    check_add_player(&mut game, 3, 6);
    check_user_move(&mut game, 6, Move::Rock, COMMON_BET);
}

#[test]
fn check_add_twice_the_same() {
    let mut game = common_init();
    check_add_player(&mut game, 3, 6);
    failure_add_player(&mut game, 3, 6);
}

#[test]
fn check_add_after_game_over() {
    let moves = [Move::Lizard, Move::Rock, Move::Lizard, Move::Lizard];
    let mut game = init_with_users(&all_users());
    let outcome = play_round(&mut game, &all_users(), &moves);
    assert_eq!(outcome.event, Event::SuccessfulReveal(RevealResult::GameOver { winner: 4 }));
    check_add_player(&mut game, 3, 7);
}

#[test]
fn check_add_after_stop_the_game() {
    let moves = [Move::Lizard, Move::Rock, Move::Spock, Move::Lizard];
    let mut game = init_with_users(&all_users());
    play_round(&mut game, &all_users(), &moves);
    check_stop_the_game(&mut game, 3, &all_users());
    check_add_player(&mut game, 3, 7);
}

#[test]
fn add_player_check_during_the_first_round() {
    let moves = [Move::Lizard, Move::Paper, Move::Scissors, Move::Rock];
    let mut game = common_init();
    check_user_move(&mut game, 3, moves[0], COMMON_BET);
    check_user_move(&mut game, 5, moves[2], COMMON_BET);
    failure_add_player(&mut game, 3, 6);
}

#[test]
fn add_player_check_before_first_reveal_in_first_round() {
    let moves = [Move::Lizard, Move::Paper, Move::Scissors, Move::Rock];
    let mut game = init_with_users(&all_users());
    reach_reveal_stage(&mut game, &all_users(), &moves);
    failure_add_player(&mut game, 3, 7);
}

#[test]
fn add_player_check_during_reveal_in_first_round_with_some_reveals() {
    let moves = [Move::Lizard, Move::Paper, Move::Scissors, Move::Rock];
    let mut game = init_with_users(&all_users());
    reach_reveal_stage(&mut game, &all_users(), &moves);
    check_user_reveal_with_continue(&mut game, 4, moves[1]);
    check_user_reveal_with_continue(&mut game, 6, moves[3]);
    failure_add_player(&mut game, 3, 7);
}

#[test]
fn add_player_check_in_start_of_second_round() {
    let moves = [Move::Lizard, Move::Paper, Move::Scissors, Move::Rock];
    let mut game = init_with_users(&all_users());
    play_round(&mut game, &all_users(), &moves);
    failure_add_player(&mut game, 3, 7);
}

#[test]
fn add_player_check_all_players_in_progress_of_second_round() {
    let moves = [Move::Lizard, Move::Paper, Move::Scissors, Move::Rock];
    let mut game = init_with_users(&all_users());
    play_round(&mut game, &all_users(), &moves);
    check_user_move(&mut game, 3, moves[0], 0);
    check_user_move(&mut game, 5, moves[2], 0);
    failure_add_player(&mut game, 3, 7);
}

#[test]
fn check_add_retired_player_in_second_round() {
    let moves = [Move::Lizard, Move::Paper, Move::Lizard, Move::Lizard];
    let mut game = init_with_users(&all_users());
    play_round(&mut game, &all_users(), &moves);
    failure_add_player(&mut game, 3, 4);
}

#[test]
fn check_not_owner_add() {
    let mut game = common_init();
    failure_add_player(&mut game, 4, 6);
}
