#![allow(dead_code)]

use rock_paper_scissors::{
    check_commitment, commitment_of, encode_hex, Action, Event, GameConfig, GameError, Move,
    RPSGame, RevealResult,
};

fn hex_reference(bytes: &[u8]) -> Vec<u8> {
    bytes.iter().map(|b| format!("{:02x}", b)).collect::<String>().into_bytes()
}

#[test]
fn hex_encoding_matches_the_reference() {
    assert_eq!(encode_hex(&vec![]), Vec::<u8>::new());
    assert_eq!(encode_hex(&vec![0x00]), b"00".to_vec());
    assert_eq!(encode_hex(&vec![0x00, 0x0f, 0xff, 0x1a]), b"000fff1a".to_vec());
    assert_eq!(encode_hex(&vec![0xde, 0xad, 0xbe, 0xef]), hex_reference(&[0xde, 0xad, 0xbe, 0xef]));
}

#[test]
fn commitment_is_the_hex_of_the_blake2_digest() {
    let plain = b"0some salt".to_vec();
    let digest = sp_core_hashing::blake2_256(&plain);
    assert_eq!(commitment_of(&plain), hex_reference(&digest));
    assert_eq!(commitment_of(&plain).len(), 64);
}

#[test]
fn commitment_check_accepts_exactly_the_committed_bytes() {
    let committed = b"3pass12".to_vec();
    let stored = commitment_of(&committed);
    assert!(check_commitment(&stored, &committed));
    assert!(!check_commitment(&stored, &b"3pass13".to_vec()));
    assert!(!check_commitment(&stored, &b"4pass12".to_vec()));
    assert!(!check_commitment(&stored, &b"".to_vec()));
}

fn config() -> GameConfig {
    GameConfig {
        bet_size: 1000,
        players_count_limit: 5,
        entry_timeout: 10_000,
        move_timeout: 10_000,
        reveal_timeout: 10_000,
    }
}

fn game_in_reveal_with(commit_plain: &[u8], other_plain: &[u8]) -> RPSGame {
    let mut game = RPSGame::new(1, config(), vec![1, 2], 0).unwrap();
    let c1 = commitment_of(&commit_plain.to_vec());
    let c2 = commitment_of(&other_plain.to_vec());
    game.handle(1, 1000, 0, Action::MakeMove(c1)).outcome.expect("first move accepted");
    game.handle(2, 1000, 0, Action::MakeMove(c2)).outcome.expect("second move accepted");
    game
}

#[test]
fn revealing_the_committed_move_succeeds() {
    let mut game = game_in_reveal_with(b"0mysalt", b"1othersalt");
    let outcome = game.handle(1, 0, 0, Action::Reveal(b"0mysalt".to_vec())).outcome;
    assert_eq!(outcome.unwrap().event, Event::SuccessfulReveal(RevealResult::Continue));
}

#[test]
fn revealing_another_move_is_cheating() {
    let mut game = game_in_reveal_with(b"0mysalt", b"1othersalt");
    let outcome = game.handle(1, 0, 0, Action::Reveal(b"2mysalt".to_vec())).outcome;
    assert_eq!(outcome.err().unwrap(), GameError::CheatingDetected);
}

#[test]
fn revealing_with_another_salt_is_cheating() {
    let mut game = game_in_reveal_with(b"0mysalt", b"1othersalt");
    let outcome = game.handle(1, 0, 0, Action::Reveal(b"0othersalt".to_vec())).outcome;
    assert_eq!(outcome.err().unwrap(), GameError::CheatingDetected);
}

#[test]
fn revealing_a_committed_non_move_is_rejected_after_the_hash_check() {
    let mut game = game_in_reveal_with(b"9mysalt", b"1othersalt");
    let outcome = game.handle(1, 0, 0, Action::Reveal(b"9mysalt".to_vec())).outcome;
    assert_eq!(outcome.err().unwrap(), GameError::InvalidRevealedMove);
}

#[test]
fn revealing_committed_empty_bytes_is_rejected_after_the_hash_check() {
    let mut game = game_in_reveal_with(b"", b"1othersalt");
    let outcome = game.handle(1, 0, 0, Action::Reveal(Vec::new())).outcome;
    assert_eq!(outcome.err().unwrap(), GameError::InvalidRevealedMove);
}

#[test]
fn a_move_commitment_built_by_hand_matches_the_engine() {
    let users_move = Move::Lizard;
    let password = "pass12";
    let plain = format!("{}{}", users_move.number(), password).into_bytes();
    let by_hand = hex_reference(&sp_core_hashing::blake2_256(&plain));
    let mut game = RPSGame::new(1, config(), vec![1, 2], 0).unwrap();
    game.handle(1, 1000, 0, Action::MakeMove(by_hand)).outcome.expect("move accepted");
    game.handle(2, 1000, 0, Action::MakeMove(commitment_of(&b"0x".to_vec())))
        .outcome
        .expect("move accepted");
    let outcome = game.handle(1, 0, 0, Action::Reveal(plain)).outcome;
    assert_eq!(outcome.unwrap().event, Event::SuccessfulReveal(RevealResult::Continue));
}
