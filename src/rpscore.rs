use vstd::prelude::*;

verus! {

/// Number of columns of the board.
pub const BOARD_WIDTH: usize = 7;

/// Number of rows of the board.
pub const BOARD_HEIGHT: usize = 6;

/// Units each side fields.
pub const UNITS_PER_SIDE: usize = 14;

/// Board cell value that marks an empty cell.
pub const EMPTY_CELL: u8 = 255;

/// Outcome code of `Logic::combat`: the attacking weapon wins.
pub const ATTACKER_WINS: u8 = 0;

/// Outcome code of `Logic::combat`: the defending weapon wins.
pub const DEFENDER_WINS: u8 = 1;

/// Outcome code of `Logic::combat`: neither weapon wins.
pub const NO_WINNER: u8 = 255;

/// A move direction, as seen from the moving side.
#[derive(Debug, Clone, Copy, PartialEq, Eq, Structural)]
pub enum Direction {
    Stay,
    Left,
    Forward,
    Right,
}

impl Direction {
    pub open spec fn spec_code(self) -> u8 {
        match self {
            Direction::Stay => 0,
            Direction::Left => 1,
            Direction::Forward => 2,
            Direction::Right => 3,
        }
    }

    /// The wire code of the direction: 0 stay, 1 left, 2 forward, 3 right.
    pub fn code(&self) -> (r: u8)
        ensures
            r == self.spec_code(),
    {
        match self {
            Direction::Stay => 0,
            Direction::Left => 1,
            Direction::Forward => 2,
            Direction::Right => 3,
        }
    }
}

/// The weapon a unit carries.
#[derive(Debug, Clone, Copy, PartialEq, Eq, Structural)]
pub enum Weapon {
    Unarmed,
    Rock,
    Paper,
    Scissor,
    Trap,
    King,
}

impl Weapon {
    pub open spec fn spec_code(self) -> u8 {
        match self {
            Weapon::Unarmed => 0,
            Weapon::Rock => 1,
            Weapon::Paper => 2,
            Weapon::Scissor => 3,
            Weapon::Trap => 4,
            Weapon::King => 5,
        }
    }

    /// The wire code of the weapon, its position in the declaration (0 to 5).
    pub fn code(&self) -> (r: u8)
        ensures
            r == self.spec_code(),
    {
        match self {
            Weapon::Unarmed => 0,
            Weapon::Rock => 1,
            Weapon::Paper => 2,
            Weapon::Scissor => 3,
            Weapon::Trap => 4,
            Weapon::King => 5,
        }
    }
}

impl Default for Weapon {
    fn default() -> (r: Weapon)
        ensures
            r == Weapon::Unarmed,
    {
        Weapon::Unarmed
    }
}

/// Whether `a` beats `b` among rock, paper and scissor.
pub open spec fn beats(a: Weapon, b: Weapon) -> bool {
    (a == Weapon::Rock && b == Weapon::Scissor) || (a == Weapon::Scissor && b == Weapon::Paper)
        || (a == Weapon::Paper && b == Weapon::Rock)
}

/// The outcome of a fight of attacking weapon `a` against defending weapon `b`.
/// Pairings that involve `Unarmed`, `Trap` or `King`, and equal weapons, have no winner.
pub open spec fn combat_outcome(a: Weapon, b: Weapon) -> u8 {
    if beats(a, b) {
        ATTACKER_WINS
    } else if beats(b, a) {
        DEFENDER_WINS
    } else {
        NO_WINNER
    }
}

/// The unit reference that cell (x, y) of a fresh board holds.
/// Cells are numbered row by row, `y * 7 + x`; the first side's units 0 to 13
/// fill cells 0 to 13, the second side's units fill cells 41 down to 28 as
/// `16 + 0` to `16 + 13`, every other cell is empty.
pub open spec fn initial_cell(x: int, y: int) -> u8 {
    let pos = y * 7 + x;
    if pos < 14 {
        pos as u8
    } else if pos > 27 {
        (57 - pos) as u8
    } else {
        EMPTY_CELL
    }
}

/// Whether `position` (column, row) lies on the board.
pub open spec fn on_board(position: [u8; 2]) -> bool {
    position[0] < BOARD_WIDTH && position[1] < BOARD_HEIGHT
}

/// The cell that one step from `position` in `direction` reaches for side
/// `player`, where the step is defined. Left and right are mirrored for the
/// two sides, which face each other; forward goes towards the other side.
pub open spec fn step_target(player: u8, position: [u8; 2], direction: u8) -> Option<(int, int)> {
    let x = position[0] as int;
    let y = position[1] as int;
    if (player == 0 && direction == 1) || (player == 1 && direction == 3) {
        Some((x - 1, y))
    } else if (player == 0 && direction == 3) || (player == 1 && direction == 1) {
        Some((x + 1, y))
    } else if player == 0 && direction == 2 {
        Some((x, y + 1))
    } else if player == 1 && direction == 2 {
        Some((x, y - 1))
    } else {
        None
    }
}

/// Whether the step is defined and stays on the board.
pub open spec fn step_allowed(player: u8, position: [u8; 2], direction: u8) -> bool {
    match step_target(player, position, direction) {
        Some(t) => 0 <= t.0 < BOARD_WIDTH && 0 <= t.1 < BOARD_HEIGHT,
        None => false,
    }
}

/// Board rules: the starting board, position checks, movement and combat.
pub struct Logic {}

impl Logic {
    /// The starting board, indexed `[column][row]`.
    pub fn initialize() -> (board: [[u8; 6]; 7])
        ensures
            forall|x: int, y: int|
                0 <= x < 7 && 0 <= y < 6 ==> #[trigger] board[x][y] == initial_cell(x, y),
    {
        let mut board = [[EMPTY_CELL; 6]; 7];
        let mut y: usize = 0;
        while y < 6
            invariant
                0 <= y <= 6,
                forall|x: int, yy: int|
                    0 <= x < 7 && 0 <= yy < 6 ==> #[trigger] board[x][yy] == if yy < y {
                        initial_cell(x, yy)
                    } else {
                        EMPTY_CELL
                    },
            decreases 6 - y,
        {
            let mut x: usize = 0;
            while x < 7
                invariant
                    0 <= y < 6,
                    0 <= x <= 7,
                    forall|xx: int, yy: int|
                        0 <= xx < 7 && 0 <= yy < 6 ==> #[trigger] board[xx][yy] == if yy < y || (
                        yy == y && xx < x) {
                            initial_cell(xx, yy)
                        } else {
                            EMPTY_CELL
                        },
                decreases 7 - x,
            {
                let pos: u8 = (y * 7 + x) as u8;
                if pos < 14 {
                    board[x][y] = pos;
                } else if pos > 27 {
                    board[x][y] = 15 + (42 - pos);
                }
                x = x + 1;
            }
            y = y + 1;
        }
        board
    }

    /// Whether `position` lies on the board.
    pub fn position(position: [u8; 2]) -> (r: bool)
        ensures
            r == on_board(position),
    {
        position[0] < 7 && position[1] < 6
    }

    /// Moves `position` one step in `direction` for side `player` (0 or 1).
    /// Returns false, leaving `position` as it was, where the step is not
    /// defined or would leave the board.
    pub fn destination(player: u8, position: &mut [u8; 2], direction: u8) -> (ok: bool)
        ensures
            ok == step_allowed(player, *old(position), direction),
            ok ==> final(position)[0] == step_target(player, *old(position), direction).unwrap().0
                && final(position)[1] == step_target(player, *old(position), direction).unwrap().1,
            !ok ==> *final(position) == *old(position),
    {
        let x = position[0];
        let y = position[1];
        if (player == 0 && direction == 1) || (player == 1 && direction == 3) {
            if x > 0 && x < 8 && y < 6 {
                position[0] = x - 1;
                return true;
            }
        } else if (player == 0 && direction == 3) || (player == 1 && direction == 1) {
            if x < 6 && y < 6 {
                position[0] = x + 1;
                return true;
            }
        } else if player == 0 && direction == 2 {
            if x < 7 && y < 5 {
                position[1] = y + 1;
                return true;
            }
        } else if player == 1 && direction == 2 {
            if x < 7 && y > 0 && y < 7 {
                position[1] = y - 1;
                return true;
            }
        }
        false
    }

    /// Resolves a fight: `ATTACKER_WINS` (0), `DEFENDER_WINS` (1) or `NO_WINNER` (255).
    pub fn combat(a: &Weapon, b: &Weapon) -> (r: u8)
        ensures
            r == combat_outcome(*a, *b),
    {
        match a {
            Weapon::Rock => match b {
                Weapon::Paper => DEFENDER_WINS,
                Weapon::Scissor => ATTACKER_WINS,
                _ => NO_WINNER,
            },
            Weapon::Paper => match b {
                Weapon::Rock => ATTACKER_WINS,
                Weapon::Scissor => DEFENDER_WINS,
                _ => NO_WINNER,
            },
            Weapon::Scissor => match b {
                Weapon::Rock => DEFENDER_WINS,
                Weapon::Paper => ATTACKER_WINS,
                _ => NO_WINNER,
            },
            _ => NO_WINNER,
        }
    }
}

/// Combat among rock, paper and scissor is antisymmetric: exchanging the two
/// weapons exchanges the winner; equal weapons never produce a winner; and the
/// outcome is a function of the two weapons alone.
pub proof fn lemma_combat_antisymmetric(a: Weapon, b: Weapon)
    requires
        a == Weapon::Rock || a == Weapon::Paper || a == Weapon::Scissor,
        b == Weapon::Rock || b == Weapon::Paper || b == Weapon::Scissor,
    ensures
        combat_outcome(a, b) == ATTACKER_WINS <==> combat_outcome(b, a) == DEFENDER_WINS,
        combat_outcome(a, b) == NO_WINNER <==> a == b,
        a != b ==> combat_outcome(a, b) != NO_WINNER,
{
}

/// Equal weapons never produce a winner, whatever they are.
pub proof fn lemma_combat_equal_weapons_tie(a: Weapon)
    ensures
        combat_outcome(a, a) == NO_WINNER,
{
}

} // verus!
