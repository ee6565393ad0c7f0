use ajuna_games::rpscore::{Direction, Logic, Weapon, ATTACKER_WINS, DEFENDER_WINS, EMPTY_CELL, NO_WINNER};

#[test]
fn initial_board_places_both_sides() {
    let board = Logic::initialize();
    assert_eq!(board[0][0], 0);
    assert_eq!(board[6][0], 6);
    assert_eq!(board[0][1], 7);
    assert_eq!(board[6][1], 13);
    assert_eq!(board[0][4], 29);
    assert_eq!(board[3][4], 26);
    assert_eq!(board[6][4], 23);
    assert_eq!(board[0][5], 22);
    assert_eq!(board[6][5], 16);
    for x in 0..7 {
        assert_eq!(board[x][2], EMPTY_CELL);
        assert_eq!(board[x][3], EMPTY_CELL);
    }
}

#[test]
fn position_bounds() {
    assert!(Logic::position([0, 0]));
    assert!(Logic::position([6, 5]));
    assert!(!Logic::position([7, 0]));
    assert!(!Logic::position([0, 6]));
    assert!(!Logic::position([255, 255]));
}

#[test]
fn destination_first_side() {
    let mut p = [0u8, 1u8];
    assert!(Logic::destination(0, &mut p, Direction::Forward.code()));
    assert_eq!(p, [0, 2]);
    let mut p = [3u8, 3u8];
    assert!(Logic::destination(0, &mut p, Direction::Left.code()));
    assert_eq!(p, [2, 3]);
    let mut p = [3u8, 3u8];
    assert!(Logic::destination(0, &mut p, Direction::Right.code()));
    assert_eq!(p, [4, 3]);
}

#[test]
fn destination_second_side_is_mirrored() {
    let mut p = [0u8, 4u8];
    assert!(Logic::destination(1, &mut p, Direction::Forward.code()));
    assert_eq!(p, [0, 3]);
    let mut p = [3u8, 3u8];
    assert!(Logic::destination(1, &mut p, Direction::Left.code()));
    assert_eq!(p, [4, 3]);
    let mut p = [3u8, 3u8];
    assert!(Logic::destination(1, &mut p, Direction::Right.code()));
    assert_eq!(p, [2, 3]);
}

#[test]
fn destination_rejects_leaving_the_board() {
    let mut p = [0u8, 2u8];
    assert!(!Logic::destination(0, &mut p, Direction::Left.code()));
    assert_eq!(p, [0, 2]);
    let mut p = [6u8, 2u8];
    assert!(!Logic::destination(0, &mut p, Direction::Right.code()));
    assert_eq!(p, [6, 2]);
    let mut p = [2u8, 5u8];
    assert!(!Logic::destination(0, &mut p, Direction::Forward.code()));
    assert_eq!(p, [2, 5]);
    let mut p = [2u8, 0u8];
    assert!(!Logic::destination(1, &mut p, Direction::Forward.code()));
    assert_eq!(p, [2, 0]);
    let mut p = [2u8, 2u8];
    assert!(!Logic::destination(0, &mut p, Direction::Stay.code()));
    assert!(!Logic::destination(2, &mut p, Direction::Forward.code()));
    assert_eq!(p, [2, 2]);
}

#[test]
fn combat_table() {
    assert_eq!(Logic::combat(&Weapon::Rock, &Weapon::Scissor), ATTACKER_WINS);
    assert_eq!(Logic::combat(&Weapon::Scissor, &Weapon::Paper), ATTACKER_WINS);
    assert_eq!(Logic::combat(&Weapon::Paper, &Weapon::Rock), ATTACKER_WINS);
    assert_eq!(Logic::combat(&Weapon::Rock, &Weapon::Paper), DEFENDER_WINS);
    assert_eq!(Logic::combat(&Weapon::Paper, &Weapon::Scissor), DEFENDER_WINS);
    assert_eq!(Logic::combat(&Weapon::Scissor, &Weapon::Rock), DEFENDER_WINS);
    assert_eq!(Logic::combat(&Weapon::Trap, &Weapon::Rock), NO_WINNER);
    assert_eq!(Logic::combat(&Weapon::Rock, &Weapon::King), NO_WINNER);
    assert_eq!(Logic::combat(&Weapon::Unarmed, &Weapon::Unarmed), NO_WINNER);
}

#[test]
fn combat_is_antisymmetric_and_ties_on_equal_weapons() {
    let hands = [Weapon::Rock, Weapon::Paper, Weapon::Scissor];
    for a in hands.iter() {
        assert_eq!(Logic::combat(a, a), NO_WINNER);
        for b in hands.iter() {
            if a != b {
                let ab = Logic::combat(a, b);
                let ba = Logic::combat(b, a);
                assert_ne!(ab, NO_WINNER);
                assert_eq!(ab == ATTACKER_WINS, ba == DEFENDER_WINS);
                assert_eq!(Logic::combat(a, b), ab);
            }
        }
    }
}

#[test]
fn codes_and_defaults() {
    assert_eq!(Weapon::default(), Weapon::Unarmed);
    assert_eq!(Weapon::King.code(), 5);
    assert_eq!(Weapon::Paper.code(), 2);
    assert_eq!(Direction::Right.code(), 3);
}
