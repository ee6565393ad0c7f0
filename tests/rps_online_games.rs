use ajuna_games::blocks::{run_next_block, run_to_block};
use ajuna_games::error::Error;
use ajuna_games::game::{GameState, NinjaState, PhaseState};
use ajuna_games::rps_online::{generate_game_id, Pallet, MAX_GAMES_PER_BLOCK};
use ajuna_games::rpscore::{Direction, Weapon, EMPTY_CELL};

const SEED: [u8; 32] = [5u8; 32];
const SETUP: [u8; 14] = [0, 1, 2, 3, 4, 5, 6, 7, 8, 9, 10, 11, 12, 13];

fn running_game(pallet: &mut Pallet, block: u64) -> [u8; 32] {
    let id = pallet.new_game(1, 2, false, false, SEED, block).unwrap();
    pallet.initiate(1, block).unwrap();
    pallet.initiate(2, block).unwrap();
    pallet.prepare(2, SETUP, [2u8; 32], block).unwrap();
    pallet.prepare(1, SETUP, [1u8; 32], block).unwrap();
    id
}

#[test]
fn test_game_creation() {
    let mut pallet = Pallet::new(None);
    let player_1: u64 = 1;
    let player_2: u64 = 2;
    let player_3: u64 = 3;
    let mut block: u64 = 0;
    let current_block: u64 = 100;
    run_to_block(&mut block, current_block);

    assert_eq!(
        pallet.new_game(player_1, player_1, false, false, SEED, block),
        Err(Error::SelfPlayNotAllowed)
    );
    assert!(pallet.new_game(player_1, player_2, false, false, SEED, block).is_ok());
    run_to_block(&mut block, 1);
    assert_eq!(block, 100);

    let game_id_1 = pallet.player_game(player_1);
    let game_id_2 = pallet.player_game(player_2);
    assert_eq!(game_id_1, game_id_2);
    assert!(game_id_1.is_some());

    assert_eq!(
        pallet.new_game(player_1, player_3, false, false, SEED, block),
        Err(Error::PlayerAlreadyInGame)
    );
    assert_eq!(
        pallet.new_game(player_3, player_2, false, false, SEED, block),
        Err(Error::PlayerAlreadyInGame)
    );

    let game = pallet.games(&game_id_1.unwrap()).unwrap();
    assert_eq!(game.last_action, 100);
}

#[test]
fn try_simple_rps_game() {
    let mut pallet = Pallet::new(None);
    let player_1: u64 = 1;
    let setup_1: [u8; 14] = [0, 1, 2, 3, 4, 5, 6, 7, 8, 9, 10, 11, 12, 13];
    let salt_1: [u8; 32] = [1u8; 32];
    let player_2: u64 = 2;
    let setup_2: [u8; 14] = [0, 1, 2, 3, 4, 5, 6, 7, 8, 9, 10, 11, 12, 13];
    let salt_2: [u8; 32] = [2u8; 32];

    let mut current_block: u64 = 0;
    run_to_block(&mut current_block, 100);

    // create game
    let game_id = pallet.new_game(player_1, player_2, false, false, SEED, current_block).unwrap();
    assert_eq!(pallet.player_game(player_1), Some(game_id));
    let game = pallet.games(&game_id).unwrap();
    assert!(matches!(game.game_state, GameState::Initiate(_)));
    assert_eq!(game.last_action, current_block);

    // initiate phase
    run_next_block(&mut current_block);
    assert!(pallet.initiate(player_1, current_block).is_ok());
    let game = pallet.games(&game_id).unwrap();
    assert!(matches!(game.game_state, GameState::Initiate(_)));
    assert_eq!(game.last_action, current_block);

    run_next_block(&mut current_block);
    assert!(pallet.initiate(player_2, current_block).is_ok());
    let game = pallet.games(&game_id).unwrap();
    assert!(matches!(game.game_state, GameState::Prepare(_)));
    assert_eq!(game.last_action, current_block);

    // prepare phase
    run_next_block(&mut current_block);
    assert!(pallet.prepare(player_2, setup_2, salt_2, current_block).is_ok());
    let game = pallet.games(&game_id).unwrap();
    assert!(matches!(game.game_state, GameState::Prepare(_)));
    assert_eq!(game.last_action, current_block);

    run_next_block(&mut current_block);
    assert!(pallet.prepare(player_1, setup_1, salt_1, current_block).is_ok());
    let game = pallet.games(&game_id).unwrap();
    assert!(matches!(game.game_state, GameState::Running(_)));
    assert!(matches!(game.phase_state, PhaseState::Move));
    assert_eq!(game.last_action, current_block);

    // first side moves forward onto an empty cell
    run_next_block(&mut current_block);
    assert!(pallet.play_move(player_1, [0u8, 1u8], Direction::Forward, current_block).is_ok());
    let game = pallet.games(&game_id).unwrap();
    assert_eq!(game.game_state, GameState::Running(player_2));
    assert!(matches!(game.phase_state, PhaseState::Move));
    assert_eq!(game.last_action, current_block);
    assert_eq!(game.board[0][1], u8::MAX);
    assert_eq!(game.board[0][2], 7u8);

    run_next_block(&mut current_block);
    assert!(pallet.play_move(player_2, [0u8, 4u8], Direction::Forward, current_block).is_ok());
    let game = pallet.games(&game_id).unwrap();
    assert_eq!(game.game_state, GameState::Running(player_1));
    assert!(matches!(game.phase_state, PhaseState::Move));
    assert_eq!(game.last_action, current_block);
    assert_eq!(game.board[0][4], u8::MAX);
    assert_eq!(game.board[0][3], 29u8);

    // attack: both weapons are hidden, both players must reveal
    run_next_block(&mut current_block);
    assert!(pallet.play_move(player_1, [0u8, 2u8], Direction::Forward, current_block).is_ok());
    let game = pallet.games(&game_id).unwrap();
    assert_eq!(game.game_state, GameState::Running(player_1));
    match &game.phase_state {
        PhaseState::Reveal(players) => {
            assert_eq!(players[0], player_1);
            assert_eq!(players[1], player_2);
        },
        _ => panic!("expected a reveal phase"),
    }
    assert_eq!(game.last_action, current_block);

    run_next_block(&mut current_block);
    assert!(pallet.reveal_position(player_1, 7u8, Weapon::Paper, salt_1, current_block).is_ok());
    let game = pallet.games(&game_id).unwrap();
    assert_eq!(game.game_state, GameState::Running(player_1));
    assert!(matches!(game.phase_state, PhaseState::Reveal(_)));
    assert_eq!(game.last_action, current_block);

    // paper attacks scissor: the defender wins and stays, the attacker is removed
    run_next_block(&mut current_block);
    assert!(pallet.reveal_position(player_2, 13u8, Weapon::Scissor, salt_2, current_block).is_ok());
    let game = pallet.games(&game_id).unwrap();
    assert!(matches!(game.phase_state, PhaseState::Move));
    assert_eq!(game.board[0][3], 29u8);
    assert_eq!(game.board[0][2], u8::MAX);
    assert_eq!(game.ninjas[0][7], NinjaState::Dead);
    assert_eq!(game.ninjas[1][13], NinjaState::Reveal(Weapon::Scissor));
    assert_eq!(game.last_action, current_block);
    // the turn passes to the side that did not move
    assert_eq!(game.game_state, GameState::Running(player_2));
    assert_eq!(
        pallet.play_move(player_1, [3u8, 1u8], Direction::Forward, current_block),
        Err(Error::NotYourTurn)
    );

    run_next_block(&mut current_block);
    assert!(pallet.play_move(player_2, [3u8, 4u8], Direction::Forward, current_block).is_ok());
    let game = pallet.games(&game_id).unwrap();
    assert!(matches!(game.phase_state, PhaseState::Move));
    assert_eq!(game.last_action, current_block);
    assert_eq!(game.board[3][4], u8::MAX);
    assert_eq!(game.board[3][3], 26u8);

    run_next_block(&mut current_block);
    assert!(pallet.play_move(player_1, [3u8, 1u8], Direction::Forward, current_block).is_ok());
    let game = pallet.games(&game_id).unwrap();
    assert!(matches!(game.phase_state, PhaseState::Move));
    assert_eq!(game.last_action, current_block);
    assert_eq!(game.board[3][1], u8::MAX);
    assert_eq!(game.board[3][2], 10u8);

    run_next_block(&mut current_block);
    assert!(pallet.play_move(player_2, [3u8, 3u8], Direction::Forward, current_block).is_ok());
    let game = pallet.games(&game_id).unwrap();
    assert_eq!(game.game_state, GameState::Running(player_2));
    assert!(matches!(game.phase_state, PhaseState::Reveal(_)));
    assert_eq!(game.last_action, current_block);

    // scissor against scissor: no winner, both choose again
    run_next_block(&mut current_block);
    assert!(pallet.reveal_position(player_1, 10u8, Weapon::Scissor, salt_1, current_block).is_ok());
    let game = pallet.games(&game_id).unwrap();
    assert!(matches!(game.phase_state, PhaseState::Reveal(_)));
    assert_eq!(game.last_action, current_block);

    assert!(pallet.reveal_position(player_2, 10u8, Weapon::Scissor, salt_2, current_block).is_ok());
    let game = pallet.games(&game_id).unwrap();
    assert_eq!(game.game_state, GameState::Running(player_2));
    assert!(matches!(game.phase_state, PhaseState::Choose(_)));
    assert_eq!(game.last_action, current_block);

    run_next_block(&mut current_block);
    assert!(pallet.choose_weapon(player_1, 10u8, Weapon::Rock, salt_1, current_block).is_ok());
    let game = pallet.games(&game_id).unwrap();
    assert!(matches!(game.phase_state, PhaseState::Choose(_)));
    assert_eq!(game.last_action, current_block);

    assert!(pallet.choose_weapon(player_2, 10u8, Weapon::Paper, salt_2, current_block).is_ok());
    let game = pallet.games(&game_id).unwrap();
    assert_eq!(game.game_state, GameState::Running(player_2));
    assert!(matches!(game.phase_state, PhaseState::Reveal(_)));
    assert_eq!(game.last_action, current_block);

    // the new weapons are what counts now
    run_next_block(&mut current_block);
    assert_eq!(
        pallet.reveal_position(player_1, 10u8, Weapon::Scissor, salt_1, current_block),
        Err(Error::CommitmentMismatch)
    );
    assert!(pallet.reveal_position(player_1, 10u8, Weapon::Rock, salt_1, current_block).is_ok());
    assert!(pallet.reveal_position(player_2, 10u8, Weapon::Paper, salt_2, current_block).is_ok());
    let game = pallet.games(&game_id).unwrap();
    assert!(matches!(game.phase_state, PhaseState::Move));
    assert_eq!(game.board[3][3], EMPTY_CELL);
    assert_eq!(game.board[3][2], 26u8);
    assert_eq!(game.ninjas[0][10], NinjaState::Dead);
    assert_eq!(game.game_state, GameState::Running(player_1));
}

#[test]
fn new_game_identifier_known_answer() {
    let expected: [u8; 32] = [
        52, 10, 165, 245, 174, 173, 73, 207, 116, 245, 182, 217, 40, 207, 3, 105, 252, 145, 209,
        96, 2, 52, 188, 60, 226, 225, 165, 129, 141, 102, 174, 226,
    ];
    assert_eq!(generate_game_id(&[0u8; 32], 1, 0), expected);
    let mut pallet = Pallet::new(None);
    assert_eq!(pallet.new_game(1, 2, false, false, [0u8; 32], 3), Ok(expected));
    assert_eq!(pallet.nonce(), 1);
    let second = pallet.new_game(3, 4, false, false, [0u8; 32], 3).unwrap();
    assert_ne!(second, expected);
}

#[test]
fn queued_players_cannot_open_games() {
    let mut pallet = Pallet::new(None);
    assert_eq!(pallet.new_game(1, 2, true, false, SEED, 1), Err(Error::PlayerAlreadyQueued));
    assert_eq!(pallet.new_game(1, 2, false, true, SEED, 1), Err(Error::PlayerAlreadyQueued));
    assert_eq!(pallet.player_game(1), None);
}

#[test]
fn queue_and_empty_queue_checks() {
    let mut pallet = Pallet::new(Some(9));
    assert_eq!(pallet.queue(1), Ok(0));
    pallet.new_game(1, 2, false, false, SEED, 1).unwrap();
    assert_eq!(pallet.queue(1), Err(Error::PlayerAlreadyInGame));
    assert_eq!(pallet.empty_queue(9), Ok(()));
    assert_eq!(pallet.empty_queue(1), Err(Error::NotAuthorized));
    assert_eq!(Pallet::new(None).empty_queue(9), Err(Error::NotAuthorized));
}

#[test]
fn match_round_creates_games_and_stops() {
    let mut pallet = Pallet::new(None);
    assert!(pallet.match_round(0, vec![1, 2], SEED, 7));
    let id = pallet.player_game(1).unwrap();
    assert_eq!(pallet.player_game(2), Some(id));
    let game = pallet.games(&id).unwrap();
    assert_eq!(game.game_state, GameState::Initiate(vec![1, 2]));
    assert_eq!(game.last_action, 7);
    // a player with a game is not matched into a second one
    assert!(pallet.match_round(1, vec![2, 3], SEED, 7));
    assert_eq!(pallet.player_game(3), None);
    assert!(!pallet.match_round(2, vec![], SEED, 7));
    assert!(!pallet.match_round(MAX_GAMES_PER_BLOCK - 1, vec![4, 5], SEED, 7));
    assert!(pallet.player_game(4).is_some());
    assert_eq!(pallet.create_game(vec![6], SEED, 7), Err(Error::SelfPlayNotAllowed));
    assert_eq!(pallet.create_game(vec![6, 6], SEED, 7), Err(Error::SelfPlayNotAllowed));
}

#[test]
fn actions_without_a_game_are_rejected() {
    let mut pallet = Pallet::new(None);
    assert_eq!(pallet.initiate(1, 1), Err(Error::GameNotFound));
    assert_eq!(pallet.prepare(1, SETUP, [1u8; 32], 1), Err(Error::GameNotFound));
    assert_eq!(pallet.play_move(1, [0, 1], Direction::Forward, 1), Err(Error::GameNotFound));
    assert_eq!(pallet.reveal_position(1, 0, Weapon::Rock, [1u8; 32], 1), Err(Error::GameNotFound));
    assert_eq!(pallet.choose_weapon(1, 0, Weapon::Rock, [1u8; 32], 1), Err(Error::GameNotFound));
}

#[test]
fn lifecycle_and_phase_are_enforced() {
    let mut pallet = Pallet::new(None);
    pallet.new_game(1, 2, false, false, SEED, 1).unwrap();
    assert_eq!(pallet.prepare(1, SETUP, [1u8; 32], 1), Err(Error::WrongLifecycleState));
    assert_eq!(pallet.play_move(1, [0, 1], Direction::Forward, 1), Err(Error::WrongLifecycleState));
    pallet.initiate(1, 1).unwrap();
    assert_eq!(pallet.initiate(1, 1), Err(Error::WrongLifecycleState));
    pallet.initiate(2, 1).unwrap();
    assert_eq!(pallet.initiate(2, 1), Err(Error::WrongLifecycleState));
    pallet.prepare(1, SETUP, [1u8; 32], 1).unwrap();
    let id = pallet.player_game(1).unwrap();
    let committed = pallet.games(&id).unwrap().ninjas[0].clone();
    assert_eq!(pallet.prepare(1, SETUP, [7u8; 32], 1), Err(Error::WrongLifecycleState));
    assert_eq!(pallet.games(&id).unwrap().ninjas[0], committed);
    pallet.prepare(2, SETUP, [2u8; 32], 1).unwrap();
    assert_eq!(pallet.reveal_position(1, 0, Weapon::Rock, [1u8; 32], 1), Err(Error::WrongPhaseState));
    assert_eq!(pallet.choose_weapon(1, 0, Weapon::Rock, [1u8; 32], 1), Err(Error::WrongPhaseState));
    assert_eq!(pallet.play_move(2, [0, 4], Direction::Forward, 1), Err(Error::NotYourTurn));
}

#[test]
fn loadouts_must_use_each_code_once() {
    let mut pallet = Pallet::new(None);
    let id = pallet.new_game(1, 2, false, false, SEED, 1).unwrap();
    pallet.initiate(1, 1).unwrap();
    pallet.initiate(2, 1).unwrap();
    let duplicate: [u8; 14] = [0, 1, 2, 2, 4, 5, 6, 7, 8, 9, 10, 11, 12, 13];
    assert_eq!(pallet.prepare(1, duplicate, [1u8; 32], 2), Err(Error::InvalidLoadout));
    let out_of_range: [u8; 14] = [0, 1, 2, 3, 4, 5, 6, 7, 8, 9, 10, 11, 12, 14];
    assert_eq!(pallet.prepare(1, out_of_range, [1u8; 32], 2), Err(Error::InvalidLoadout));
    let two_kings: [u8; 14] = [0, 0, 2, 3, 4, 5, 6, 7, 8, 9, 10, 11, 12, 13];
    assert_eq!(pallet.prepare(1, two_kings, [1u8; 32], 2), Err(Error::InvalidLoadout));
    let game = pallet.games(&id).unwrap();
    assert!(matches!(game.game_state, GameState::Prepare(_)));
    assert_eq!(game.last_action, 1);
    assert!(game.ninjas[0].is_empty());
    let shuffled: [u8; 14] = [13, 12, 11, 10, 9, 8, 7, 6, 5, 4, 3, 2, 1, 0];
    assert!(pallet.prepare(1, shuffled, [1u8; 32], 2).is_ok());
    let game = pallet.games(&id).unwrap();
    assert_eq!(game.ninjas[0].len(), 14);
    assert!(matches!(game.ninjas[0][0], NinjaState::Stealth(_)));
}

#[test]
fn illegal_moves_are_rejected() {
    let mut pallet = Pallet::new(None);
    let id = running_game(&mut pallet, 1);
    // out of the board
    assert_eq!(pallet.play_move(1, [7, 0], Direction::Forward, 2), Err(Error::OutOfRangeIndex));
    // an empty origin cell
    assert_eq!(pallet.play_move(1, [3, 3], Direction::Forward, 2), Err(Error::IllegalMove));
    // an opposing unit as origin
    assert_eq!(pallet.play_move(1, [0, 4], Direction::Forward, 2), Err(Error::IllegalMove));
    // onto an own unit
    assert_eq!(pallet.play_move(1, [0, 0], Direction::Forward, 2), Err(Error::IllegalMove));
    // off the board edge
    assert_eq!(pallet.play_move(1, [0, 1], Direction::Left, 2), Err(Error::IllegalMove));
    assert_eq!(pallet.play_move(1, [0, 1], Direction::Stay, 2), Err(Error::IllegalMove));
    let game = pallet.games(&id).unwrap();
    assert_eq!(game.board[0][1], 7);
    assert_eq!(game.game_state, GameState::Running(1));
}

#[test]
fn reveal_with_wrong_weapon_or_salt_changes_nothing() {
    let mut pallet = Pallet::new(None);
    let id = running_game(&mut pallet, 1);
    pallet.play_move(1, [0, 1], Direction::Forward, 2).unwrap();
    pallet.play_move(2, [0, 4], Direction::Forward, 3).unwrap();
    pallet.play_move(1, [0, 2], Direction::Forward, 4).unwrap();
    let before = pallet.games(&id).unwrap().ninjas[0][7];
    assert_eq!(pallet.reveal_position(1, 7, Weapon::Rock, [1u8; 32], 5), Err(Error::CommitmentMismatch));
    assert_eq!(pallet.reveal_position(1, 7, Weapon::Paper, [3u8; 32], 5), Err(Error::CommitmentMismatch));
    let game = pallet.games(&id).unwrap();
    assert_eq!(game.ninjas[0][7], before);
    assert!(matches!(game.ninjas[0][7], NinjaState::Stealth(_)));
    assert_eq!(game.last_action, 4);
    // the wrong unit, and a unit index out of range
    assert_eq!(pallet.reveal_position(1, 8, Weapon::Paper, [1u8; 32], 5), Err(Error::IllegalMove));
    assert_eq!(pallet.reveal_position(1, 14, Weapon::Paper, [1u8; 32], 5), Err(Error::OutOfRangeIndex));
    assert_eq!(pallet.reveal_position(1, 255, Weapon::Paper, [1u8; 32], 5), Err(Error::OutOfRangeIndex));
    assert_eq!(pallet.choose_weapon(1, 200, Weapon::Paper, [1u8; 32], 5), Err(Error::OutOfRangeIndex));
    // turn holder stays during the reveal phase
    assert_eq!(pallet.games(&id).unwrap().game_state, GameState::Running(1));
    assert!(pallet.reveal_position(1, 7, Weapon::Paper, [1u8; 32], 5).is_ok());
    assert_eq!(pallet.reveal_position(1, 7, Weapon::Paper, [1u8; 32], 5), Err(Error::WrongPhaseState));
    assert_eq!(pallet.games(&id).unwrap().game_state, GameState::Running(1));
}

#[test]
fn revealed_weapons_fight_at_once() {
    let mut pallet = Pallet::new(None);
    let id = running_game(&mut pallet, 1);
    pallet.play_move(1, [0, 1], Direction::Forward, 2).unwrap();
    pallet.play_move(2, [0, 4], Direction::Forward, 3).unwrap();
    pallet.play_move(1, [0, 2], Direction::Forward, 4).unwrap();
    pallet.reveal_position(2, 13, Weapon::Scissor, [2u8; 32], 5).unwrap();
    pallet.reveal_position(1, 7, Weapon::Paper, [1u8; 32], 5).unwrap();
    assert_eq!(pallet.games(&id).unwrap().game_state, GameState::Running(2));
    pallet.play_move(2, [0, 3], Direction::Forward, 6).unwrap();
    pallet.play_move(1, [0, 0], Direction::Forward, 7).unwrap();
    // the revealed scissor attacks the hidden king: only its owner reveals
    pallet.play_move(2, [0, 2], Direction::Forward, 8).unwrap();
    let game = pallet.games(&id).unwrap();
    assert_eq!(game.last_move, [0, 2, 2, 0, 1]);
    assert_eq!(game.phase_state, PhaseState::Reveal(vec![1u64]));
    assert_eq!(game.game_state, GameState::Running(2));
    assert_eq!(pallet.reveal_position(2, 13, Weapon::Scissor, [2u8; 32], 9), Err(Error::WrongPhaseState));
    pallet.reveal_position(1, 0, Weapon::King, [1u8; 32], 9).unwrap();
    // scissor against king has no winner: both choose again, the turn stays
    let game = pallet.games(&id).unwrap();
    assert_eq!(game.phase_state, PhaseState::Choose(vec![1u64, 2u64]));
    assert_eq!(game.game_state, GameState::Running(2));
    assert_eq!(game.board[0][2], 29);
    assert_eq!(game.board[0][1], 0);
}
