use vstd::prelude::*;
use crate::commitment::{commitment, verify, verifies};
use crate::rps_online::Pallet;
use crate::error::Error;
use crate::rpscore::{
    combat_outcome, initial_cell, on_board, step_allowed, step_target, Direction, Logic, Weapon,
    ATTACKER_WINS, DEFENDER_WINS, EMPTY_CELL, UNITS_PER_SIDE,
};

verus! {

/// The state of one unit.
#[derive(Debug, Clone, Copy, PartialEq, Eq)]
pub enum NinjaState {
    /// Not set up yet.
    Absent,
    /// Its weapon is hidden behind this commitment.
    Stealth([u8; 32]),
    /// Its weapon is known to both players.
    Reveal(Weapon),
    /// Removed from play.
    Dead,
}

/// The turn phase of a running game.
#[derive(Debug, Clone, PartialEq, Eq)]
pub enum PhaseState {
    /// No phase: the game is not running.
    Empty,
    /// The player at turn moves a unit.
    Move,
    /// After a tie, these players still have to commit a new weapon.
    Choose(Vec<u64>),
    /// These players still have to reveal the weapon of their contested unit.
    Reveal(Vec<u64>),
}

/// The lifecycle state of a game.
/// No action leads to `Finished`: what ends a game is not decided here.
#[derive(Debug, Clone, PartialEq, Eq)]
pub enum GameState {
    /// Not started.
    Empty,
    /// These players still have to acknowledge the game.
    Initiate(Vec<u64>),
    /// These players still have to submit their loadout.
    Prepare(Vec<u64>),
    /// The game runs; this player holds the turn.
    Running(u64),
    /// The game is over; this player won.
    Finished(u64),
}

impl Default for NinjaState {
    fn default() -> (r: NinjaState)
        ensures
            r == NinjaState::Absent,
    {
        NinjaState::Absent
    }
}

impl Default for PhaseState {
    fn default() -> (r: PhaseState)
        ensures
            r@ == PhaseView::Empty,
    {
        PhaseState::Empty
    }
}

impl Default for GameState {
    fn default() -> (r: GameState)
        ensures
            r@ == GameStateView::Empty,
    {
        GameState::Empty
    }
}

/// A turn phase as the contracts see it: pending players as a sequence.
pub enum PhaseView {
    Empty,
    Move,
    Choose(Seq<u64>),
    Reveal(Seq<u64>),
}

/// A lifecycle state as the contracts see it: pending players as a sequence.
pub enum GameStateView {
    Empty,
    Initiate(Seq<u64>),
    Prepare(Seq<u64>),
    Running(u64),
    Finished(u64),
}

impl View for PhaseState {
    type V = PhaseView;

    open spec fn view(&self) -> PhaseView {
        match self {
            PhaseState::Empty => PhaseView::Empty,
            PhaseState::Move => PhaseView::Move,
            PhaseState::Choose(v) => PhaseView::Choose(v@),
            PhaseState::Reveal(v) => PhaseView::Reveal(v@),
        }
    }
}

impl View for GameState {
    type V = GameStateView;

    open spec fn view(&self) -> GameStateView {
        match self {
            GameState::Empty => GameStateView::Empty,
            GameState::Initiate(v) => GameStateView::Initiate(v@),
            GameState::Prepare(v) => GameStateView::Prepare(v@),
            GameState::Running(p) => GameStateView::Running(*p),
            GameState::Finished(p) => GameStateView::Finished(*p),
        }
    }
}

/// A game between two players: its board, its units and its two state machines.
pub struct Game {
    pub id: [u8; 32],
    /// The two participants; the first one starts.
    pub players: Vec<u64>,
    /// The units of each participant, by participant index.
    pub ninjas: [Vec<NinjaState>; 2],
    /// Cells indexed `[column][row]`; `EMPTY_CELL`, or `16 * side + unit`.
    pub board: [[u8; 6]; 7],
    /// Origin column and row, direction code, destination column and row of
    /// the last move (255 where not set).
    pub last_move: [u8; 5],
    /// The block of the last accepted action.
    pub last_action: u64,
    pub phase_state: PhaseState,
    pub game_state: GameState,
}

/// A game as the contracts see it: the units of each side as sequences.
pub struct GameView {
    pub id: [u8; 32],
    pub players: Seq<u64>,
    pub ninjas: Seq<Seq<NinjaState>>,
    pub board: [[u8; 6]; 7],
    pub last_move: [u8; 5],
    pub last_action: u64,
    pub phase: PhaseView,
    pub state: GameStateView,
}

impl View for Game {
    type V = GameView;

    open spec fn view(&self) -> GameView {
        GameView {
            id: self.id,
            players: self.players@,
            ninjas: seq![self.ninjas[0]@, self.ninjas[1]@],
            board: self.board,
            last_move: self.last_move,
            last_action: self.last_action,
            phase: self.phase_state@,
            state: self.game_state@,
        }
    }
}

/// Who occupies a cell: `None` when empty, else (side, unit index).
pub open spec fn cell_occupant(cell: u8) -> Option<(u8, u8)> {
    if cell == EMPTY_CELL {
        None
    } else {
        Some(((cell / 16) as u8, (cell % 16) as u8))
    }
}

/// The index of side `side`'s unit in a cell, if the cell holds one of its units.
pub open spec fn cell_unit(cell: u8, side: int) -> Option<u8> {
    match cell_occupant(cell) {
        Some(o) => if o.0 == side {
            Some(o.1)
        } else {
            None
        },
        None => None,
    }
}

/// Who occupies a cell: `None` when empty, else (side, unit index).
pub fn occupant(cell: u8) -> (r: Option<(u8, u8)>)
    ensures
        r == cell_occupant(cell),
{
    if cell == EMPTY_CELL {
        None
    } else {
        Some((cell / 16, cell % 16))
    }
}

/// The index of side `side`'s unit in `cell`, if it holds one.
fn unit_of(cell: u8, side: usize) -> (r: Option<u8>)
    ensures
        r == cell_unit(cell, side as int),
{
    match occupant(cell) {
        Some(o) => if o.0 as usize == side {
            Some(o.1)
        } else {
            None
        },
        None => None,
    }
}

/// The participant index of `player`, where the game has two participants
/// and `player` is one of them.
pub open spec fn player_index(players: Seq<u64>, player: u64) -> Option<int> {
    if players.len() != 2 {
        None
    } else if players[0] == player {
        Some(0)
    } else if players[1] == player {
        Some(1)
    } else {
        None
    }
}

fn index_of(players: &Vec<u64>, player: u64) -> (r: Option<usize>)
    ensures
        match player_index(players@, player) {
            Some(i) => r == Some(i as usize),
            None => r is None,
        },
{
    if players.len() != 2 {
        None
    } else if players[0] == player {
        Some(0)
    } else if players[1] == player {
        Some(1)
    } else {
        None
    }
}

/// `pending` with every occurrence of `player` taken out, order kept.
pub open spec fn without(pending: Seq<u64>, player: u64) -> Seq<u64>
    decreases pending.len(),
{
    if pending.len() == 0 {
        pending
    } else {
        let rest = without(pending.drop_last(), player);
        if pending.last() == player {
            rest
        } else {
            rest.push(pending.last())
        }
    }
}

fn remove_player(pending: &Vec<u64>, player: u64) -> (r: Vec<u64>)
    ensures
        r@ == without(pending@, player),
{
    let mut r: Vec<u64> = Vec::new();
    let mut i: usize = 0;
    while i < pending.len()
        invariant
            0 <= i <= pending.len(),
            r@ == without(pending@.subrange(0, i as int), player),
        decreases pending.len() - i,
    {
        assert(pending@.subrange(0, i as int + 1).drop_last() =~= pending@.subrange(0, i as int));
        if pending[i] != player {
            r.push(pending[i]);
        }
        i = i + 1;
    }
    assert(pending@.subrange(0, pending@.len() as int) =~= pending@);
    r
}

fn contains_player(pending: &Vec<u64>, player: u64) -> (r: bool)
    ensures
        r == pending@.contains(player),
{
    let mut i: usize = 0;
    while i < pending.len()
        invariant
            0 <= i <= pending.len(),
            forall|j: int| 0 <= j < i ==> pending@[j] != player,
        decreases pending.len() - i,
    {
        if pending[i] == player {
            return true;
        }
        i = i + 1;
    }
    false
}

/// `board` with cell (x, y) set to `v`.
pub open spec fn with_cell(board: [[u8; 6]; 7], x: int, y: int, v: u8) -> [[u8; 6]; 7] {
    vstd::array::spec_array_update(board, x, vstd::array::spec_array_update(board[x], y, v))
}

/// `ninjas` with unit `k` of side `side` set to `s`.
pub open spec fn with_unit(ninjas: Seq<Seq<NinjaState>>, side: int, k: int, s: NinjaState) -> Seq<
    Seq<NinjaState>,
> {
    ninjas.update(side, ninjas[side].update(k, s))
}

/// A loadout assigns each of the fourteen slot codes 0 to 13 to exactly one unit.
pub open spec fn loadout_valid(setup: [u8; 14]) -> bool {
    &&& forall|i: int| 0 <= i < 14 ==> #[trigger] setup[i] < 14
    &&& forall|i: int, j: int| 0 <= i < j < 14 ==> setup[i] != setup[j]
}

/// The weapon that a slot code stands for: 0 king, 1 trap, 2 to 5 rock,
/// 6 to 9 paper, 10 to 13 scissor.
pub open spec fn slot_weapon(code: u8) -> Weapon {
    if code == 0 {
        Weapon::King
    } else if code == 1 {
        Weapon::Trap
    } else if code <= 5 {
        Weapon::Rock
    } else if code <= 9 {
        Weapon::Paper
    } else if code <= 13 {
        Weapon::Scissor
    } else {
        Weapon::Unarmed
    }
}

/// The units that a loadout gives: unit k hides the weapon of `setup[k]`
/// behind its commitment at slot k.
pub open spec fn committed_units(setup: [u8; 14], salt: [u8; 32]) -> Seq<NinjaState> {
    Seq::new(14, |k: int| NinjaState::Stealth(commitment(salt@, k as u8, slot_weapon(setup[k]))))
}

/// Acknowledging a game: the player leaves the pending set; once nobody is
/// pending the game goes on to `Prepare` with every participant pending.
pub open spec fn initiate_spec(g: GameView, player: u64, block: u64) -> Result<GameView, Error> {
    match player_index(g.players, player) {
        None => Err(Error::GameNotFound),
        Some(_) => match g.state {
            GameStateView::Initiate(pending) => if !pending.contains(player) {
                Err(Error::WrongLifecycleState)
            } else {
                let rest = without(pending, player);
                Ok(
                    GameView {
                        state: if rest.len() == 0 {
                            GameStateView::Prepare(g.players)
                        } else {
                            GameStateView::Initiate(rest)
                        },
                        last_action: block,
                        ..g
                    },
                )
            },
            _ => Err(Error::WrongLifecycleState),
        },
    }
}

/// Submitting a loadout: the player's units become committed; once nobody is
/// pending the game runs, in phase `Move`, with the first participant at turn.
pub open spec fn prepare_spec(
    g: GameView,
    player: u64,
    setup: [u8; 14],
    salt: [u8; 32],
    block: u64,
) -> Result<GameView, Error> {
    match player_index(g.players, player) {
        None => Err(Error::GameNotFound),
        Some(i) => match g.state {
            GameStateView::Prepare(pending) => if !pending.contains(player) {
                Err(Error::WrongLifecycleState)
            } else if !loadout_valid(setup) {
                Err(Error::InvalidLoadout)
            } else {
                let rest = without(pending, player);
                let g1 = GameView {
                    ninjas: g.ninjas.update(i, committed_units(setup, salt)),
                    last_action: block,
                    ..g
                };
                if rest.len() == 0 {
                    Ok(GameView { phase: PhaseView::Move, state: GameStateView::Running(g.players[0]), ..g1 })
                } else {
                    Ok(GameView { state: GameStateView::Prepare(rest), ..g1 })
                }
            },
            _ => Err(Error::WrongLifecycleState),
        },
    }
}

/// Whether every slot code 0 to 13 is used exactly once.
pub fn check_loadout(setup: &[u8; 14]) -> (r: bool)
    ensures
        r == loadout_valid(*setup),
{
    let mut seen: [bool; 14] = [false; 14];
    let mut i: usize = 0;
    while i < 14
        invariant
            0 <= i <= 14,
            forall|j: int| 0 <= j < i ==> #[trigger] setup[j] < 14,
            forall|j: int, k: int| 0 <= j < k < i ==> setup[j] != setup[k],
            forall|c: int|
                0 <= c < 14 ==> (#[trigger] seen[c] <==> exists|j: int| 0 <= j < i && setup[j] == c),
        decreases 14 - i,
    {
        let code = setup[i];
        if code >= 14 {
            return false;
        }
        if seen[code as usize] {
            proof {
                let j = choose|j: int| 0 <= j < i && setup[j] == code;
                assert(setup[j] == setup[i as int]);
            }
            return false;
        }
        seen[code as usize] = true;
        i = i + 1;
    }
    true
}

fn weapon_of_slot(code: u8) -> (r: Weapon)
    ensures
        r == slot_weapon(code),
{
    if code == 0 {
        Weapon::King
    } else if code == 1 {
        Weapon::Trap
    } else if code <= 5 {
        Weapon::Rock
    } else if code <= 9 {
        Weapon::Paper
    } else if code <= 13 {
        Weapon::Scissor
    } else {
        Weapon::Unarmed
    }
}

fn commit_units(setup: &[u8; 14], salt: &[u8; 32]) -> (r: Vec<NinjaState>)
    ensures
        r@ == committed_units(*setup, *salt),
{
    let mut units: Vec<NinjaState> = Vec::new();
    let mut k: usize = 0;
    while k < UNITS_PER_SIDE
        invariant
            0 <= k <= 14,
            units@.len() == k,
            forall|j: int| 0 <= j < k ==> #[trigger] units@[j] == committed_units(*setup, *salt)[j],
        decreases 14 - k,
    {
        let w = weapon_of_slot(setup[k]);
        units.push(NinjaState::Stealth(Pallet::hash_choice(*salt, k, w)));
        k = k + 1;
    }
    assert(units@ =~= committed_units(*setup, *salt));
    units
}

/// The other participant index.
pub open spec fn other(i: int) -> int {
    1 - i
}

/// The record of a move: origin column and row, direction code, destination
/// column and row.
pub open spec fn move_record(x: u8, y: u8, d: u8, dx: u8, dy: u8) -> [u8; 5] {
    [x, y, d, dx, dy]
}

/// The fight of attacker unit `ka` of side `a`, standing at (ax, ay), against
/// defender unit `kd` of side `d` at (dx, dy), with known weapons. The loser is
/// removed; a winning attacker takes the contested cell; after a decision the
/// turn passes to the defending side. A fight without winner asks both
/// participants for new weapons.
pub open spec fn resolve_spec(
    g: GameView,
    ax: int,
    ay: int,
    dx: int,
    dy: int,
    a: int,
    ka: int,
    d: int,
    kd: int,
    wa: Weapon,
    wd: Weapon,
) -> GameView {
    let outcome = combat_outcome(wa, wd);
    if outcome == ATTACKER_WINS {
        GameView {
            ninjas: with_unit(g.ninjas, d, kd, NinjaState::Dead),
            board: with_cell(with_cell(g.board, ax, ay, EMPTY_CELL), dx, dy, g.board[ax][ay]),
            phase: PhaseView::Move,
            state: GameStateView::Running(g.players[d]),
            ..g
        }
    } else if outcome == DEFENDER_WINS {
        GameView {
            ninjas: with_unit(g.ninjas, a, ka, NinjaState::Dead),
            board: with_cell(g.board, ax, ay, EMPTY_CELL),
            phase: PhaseView::Move,
            state: GameStateView::Running(g.players[d]),
            ..g
        }
    } else {
        GameView { phase: PhaseView::Choose(g.players), ..g }
    }
}

/// Whether a unit can take part in a fight.
pub open spec fn in_play(s: NinjaState) -> bool {
    s is Stealth || s is Reveal
}

/// A move of unit `k` of side `i` from (x, y) onto the opposing unit at
/// (dx, dy). Units whose weapon is hidden must be revealed first: their owners
/// become pending, mover first. When both weapons are known the fight is
/// resolved at once.
pub open spec fn contest_spec(g: GameView, i: int, k: int, x: int, y: int, dx: int, dy: int) -> Result<GameView, Error> {
    let o = other(i);
    match cell_unit(g.board[dx][dy], o) {
        None => Err(Error::IllegalMove),
        Some(k2) => if k >= g.ninjas[i].len() || k2 >= g.ninjas[o].len() {
            Err(Error::IllegalMove)
        } else {
            let a = g.ninjas[i][k];
            let b = g.ninjas[o][k2 as int];
            if !in_play(a) || !in_play(b) {
                Err(Error::IllegalMove)
            } else if a is Stealth || b is Stealth {
                let pending = (if a is Stealth {
                    seq![g.players[i]]
                } else {
                    Seq::empty()
                }) + (if b is Stealth {
                    seq![g.players[o]]
                } else {
                    Seq::empty()
                });
                Ok(GameView { phase: PhaseView::Reveal(pending), ..g })
            } else {
                Ok(resolve_spec(g, x, y, dx, dy, i, k, o, k2 as int, a->Reveal_0, b->Reveal_0))
            }
        },
    }
}

/// A move by side `i`, after the lifecycle, phase and turn checks.
pub open spec fn move_on_board(g: GameView, i: int, position: [u8; 2], direction: Direction, block: u64) -> Result<GameView, Error> {
    let x = position[0] as int;
    let y = position[1] as int;
    let code = direction.spec_code();
    let origin = g.board[x][y];
    match cell_unit(origin, i) {
        None => Err(Error::IllegalMove),
        Some(k) => if !step_allowed(i as u8, position, code) {
            Err(Error::IllegalMove)
        } else {
            let t = step_target(i as u8, position, code).unwrap();
            let target = g.board[t.0][t.1];
            let g1 = GameView {
                last_move: move_record(position[0], position[1], code, t.0 as u8, t.1 as u8),
                last_action: block,
                ..g
            };
            if cell_unit(target, i) is Some {
                Err(Error::IllegalMove)
            } else if target == EMPTY_CELL {
                Ok(
                    GameView {
                        board: with_cell(with_cell(g.board, t.0, t.1, origin), x, y, EMPTY_CELL),
                        state: GameStateView::Running(g.players[other(i)]),
                        ..g1
                    },
                )
            } else {
                contest_spec(g1, i, k as int, x, y, t.0, t.1)
            }
        },
    }
}

/// Moving a unit: only while running, in phase `Move`, by the player at turn.
/// A move onto an empty cell relocates the unit and hands the turn over.
pub open spec fn move_spec(g: GameView, player: u64, position: [u8; 2], direction: Direction, block: u64) -> Result<GameView, Error> {
    match player_index(g.players, player) {
        None => Err(Error::GameNotFound),
        Some(i) => match g.state {
            GameStateView::Running(turn) => if !on_board(position) {
                Err(Error::OutOfRangeIndex)
            } else if !(g.phase is Move) {
                Err(Error::WrongPhaseState)
            } else if turn != player {
                Err(Error::NotYourTurn)
            } else {
                move_on_board(g, i, position, direction, block)
            },
            _ => Err(Error::WrongLifecycleState),
        },
    }
}

/// Whether both cells of the last move lie on the board.
pub open spec fn last_move_on_board(lm: [u8; 5]) -> bool {
    lm[0] < 7 && lm[1] < 6 && lm[3] < 7 && lm[4] < 6
}

/// The contested cell's content on `player`'s side: the origin of the last
/// move for the player at turn, its destination for the other.
pub open spec fn own_contested_cell(g: GameView, player: u64, turn: u64) -> u8 {
    if player == turn {
        g.board[g.last_move[0] as int][g.last_move[1] as int]
    } else {
        g.board[g.last_move[3] as int][g.last_move[4] as int]
    }
}

/// Why unit `ninja` of side `i` cannot act in the current fight, if it cannot.
pub open spec fn contested_unit_error(g: GameView, i: int, player: u64, turn: u64, ninja: u8) -> Option<Error> {
    if !last_move_on_board(g.last_move) {
        Some(Error::IllegalMove)
    } else if cell_unit(own_contested_cell(g, player, turn), i) != Some(ninja) {
        Some(Error::IllegalMove)
    } else if ninja >= g.ninjas[i].len() {
        Some(Error::IllegalMove)
    } else {
        None
    }
}

/// The fight once both weapons are known: the side at turn attacks from the
/// origin of the last move, the other side defends its destination.
pub open spec fn settle_spec(g: GameView, turn: u64) -> Result<GameView, Error> {
    match player_index(g.players, turn) {
        None => Err(Error::IllegalMove),
        Some(a) => {
            let d = other(a);
            let ax = g.last_move[0] as int;
            let ay = g.last_move[1] as int;
            let dx = g.last_move[3] as int;
            let dy = g.last_move[4] as int;
            match (cell_unit(g.board[ax][ay], a), cell_unit(g.board[dx][dy], d)) {
                (Some(ka), Some(kd)) => if ka >= g.ninjas[a].len() || kd >= g.ninjas[d].len() {
                    Err(Error::IllegalMove)
                } else {
                    match (g.ninjas[a][ka as int], g.ninjas[d][kd as int]) {
                        (NinjaState::Reveal(wa), NinjaState::Reveal(wd)) => Ok(
                            resolve_spec(g, ax, ay, dx, dy, a, ka as int, d, kd as int, wa, wd),
                        ),
                        _ => Err(Error::IllegalMove),
                    }
                },
                _ => Err(Error::IllegalMove),
            }
        },
    }
}

/// Revealing the weapon of the player's contested unit: only with the salt
/// and weapon that reproduce its commitment. Once nobody is pending the
/// fight is resolved.
pub open spec fn reveal_spec(
    g: GameView,
    player: u64,
    ninja: u8,
    weapon: Weapon,
    salt: [u8; 32],
    block: u64,
) -> Result<GameView, Error> {
    match player_index(g.players, player) {
        None => Err(Error::GameNotFound),
        Some(i) => match g.state {
            GameStateView::Running(turn) => if ninja >= 14 {
                Err(Error::OutOfRangeIndex)
            } else {
                match g.phase {
                    PhaseView::Reveal(pending) => if !pending.contains(player) {
                        Err(Error::WrongPhaseState)
                    } else {
                        match contested_unit_error(g, i, player, turn, ninja) {
                            Some(e) => Err(e),
                            None => match g.ninjas[i][ninja as int] {
                                NinjaState::Stealth(h) => if !verifies(h, salt@, ninja, weapon) {
                                    Err(Error::CommitmentMismatch)
                                } else {
                                    let g1 = GameView {
                                        ninjas: with_unit(g.ninjas, i, ninja as int, NinjaState::Reveal(weapon)),
                                        last_action: block,
                                        ..g
                                    };
                                    let rest = without(pending, player);
                                    if rest.len() > 0 {
                                        Ok(GameView { phase: PhaseView::Reveal(rest), ..g1 })
                                    } else {
                                        settle_spec(g1, turn)
                                    }
                                },
                                _ => Err(Error::IllegalMove),
                            },
                        }
                    },
                    _ => Err(Error::WrongPhaseState),
                }
            },
            _ => Err(Error::WrongLifecycleState),
        },
    }
}

/// Choosing a new weapon for the player's contested unit after a fight
/// without winner: the unit hides `weapon` behind a new commitment. Once
/// nobody is pending, every participant has to reveal.
pub open spec fn choose_spec(
    g: GameView,
    player: u64,
    ninja: u8,
    weapon: Weapon,
    salt: [u8; 32],
    block: u64,
) -> Result<GameView, Error> {
    match player_index(g.players, player) {
        None => Err(Error::GameNotFound),
        Some(i) => match g.state {
            GameStateView::Running(turn) => if ninja >= 14 {
                Err(Error::OutOfRangeIndex)
            } else {
                match g.phase {
                    PhaseView::Choose(pending) => if !pending.contains(player) {
                        Err(Error::WrongPhaseState)
                    } else {
                        match contested_unit_error(g, i, player, turn, ninja) {
                            Some(e) => Err(e),
                            None => if !(g.ninjas[i][ninja as int] is Reveal) {
                                Err(Error::IllegalMove)
                            } else {
                                let rest = without(pending, player);
                                Ok(
                                    GameView {
                                        ninjas: with_unit(
                                            g.ninjas,
                                            i,
                                            ninja as int,
                                            NinjaState::Stealth(commitment(salt@, ninja, weapon)),
                                        ),
                                        phase: if rest.len() > 0 {
                                            PhaseView::Choose(rest)
                                        } else {
                                            PhaseView::Reveal(g.players)
                                        },
                                        last_action: block,
                                        ..g
                                    },
                                )
                            },
                        }
                    },
                    _ => Err(Error::WrongPhaseState),
                }
            },
            _ => Err(Error::WrongLifecycleState),
        },
    }
}

impl Game {
    /// A new game: no units set up, the starting board, nothing moved yet.
    pub fn initialize(game_id: [u8; 32], block_number: u64, players: Vec<u64>, game_state: GameState) -> (r: Game)
        ensures
            r@.id == game_id,
            r@.players == players@,
            r@.ninjas == seq![Seq::<NinjaState>::empty(), Seq::<NinjaState>::empty()],
            forall|x: int, y: int|
                0 <= x < 7 && 0 <= y < 6 ==> #[trigger] r@.board[x][y] == initial_cell(x, y),
            forall|i: int| 0 <= i < 5 ==> #[trigger] r@.last_move[i] == EMPTY_CELL,
            r@.last_action == block_number,
            r@.phase == PhaseView::Empty,
            r@.state == game_state@,
    {
        Game {
            id: game_id,
            players,
            ninjas: [Vec::new(), Vec::new()],
            board: Logic::initialize(),
            last_move: [EMPTY_CELL; 5],
            last_action: block_number,
            phase_state: PhaseState::Empty,
            game_state,
        }
    }

    fn set_cell(&mut self, x: usize, y: usize, v: u8)
        requires
            x < 7,
            y < 6,
        ensures
            final(self)@ == (GameView { board: with_cell(old(self)@.board, x as int, y as int, v), ..old(self)@ }),
    {
        self.board[x][y] = v;
        assert(self.board[x as int] =~= vstd::array::spec_array_update(old(self).board[x as int], y as int, v));
        assert(self.board =~= with_cell(old(self)@.board, x as int, y as int, v));
    }

    fn set_unit(&mut self, side: usize, k: usize, s: NinjaState)
        requires
            side < 2,
            k < old(self)@.ninjas[side as int].len(),
        ensures
            final(self)@ == (GameView { ninjas: with_unit(old(self)@.ninjas, side as int, k as int, s), ..old(self)@ }),
    {
        self.ninjas[side].set(k, s);
        assert(self@.ninjas =~= with_unit(old(self)@.ninjas, side as int, k as int, s));
    }

    /// A participant acknowledges the game.
    pub fn initiate(&mut self, player: u64, block: u64) -> (r: Result<(), Error>)
        ensures
            match initiate_spec(old(self)@, player, block) {
                Ok(g) => r is Ok && final(self)@ == g,
                Err(e) => r == Err::<(), Error>(e) && *final(self) == *old(self),
            },
    {
        if index_of(&self.players, player).is_none() {
            return Err(Error::GameNotFound);
        }
        let rest = match &self.game_state {
            GameState::Initiate(pending) => {
                if !contains_player(pending, player) {
                    return Err(Error::WrongLifecycleState);
                }
                remove_player(pending, player)
            },
            _ => {
                return Err(Error::WrongLifecycleState);
            },
        };
        if rest.len() == 0 {
            self.game_state = GameState::Prepare(self.players.clone());
        } else {
            self.game_state = GameState::Initiate(rest);
        }
        self.last_action = block;
        Ok(())
    }

    /// A participant submits their loadout, committed under `salt`.
    pub fn prepare(&mut self, player: u64, setup: [u8; 14], salt: [u8; 32], block: u64) -> (r: Result<(), Error>)
        ensures
            match prepare_spec(old(self)@, player, setup, salt, block) {
                Ok(g) => r is Ok && final(self)@ == g,
                Err(e) => r == Err::<(), Error>(e) && *final(self) == *old(self),
            },
    {
        let i = match index_of(&self.players, player) {
            Some(i) => i,
            None => {
                return Err(Error::GameNotFound);
            },
        };
        let rest = match &self.game_state {
            GameState::Prepare(pending) => {
                if !contains_player(pending, player) {
                    return Err(Error::WrongLifecycleState);
                }
                if !check_loadout(&setup) {
                    return Err(Error::InvalidLoadout);
                }
                remove_player(pending, player)
            },
            _ => {
                return Err(Error::WrongLifecycleState);
            },
        };
        let units = commit_units(&setup, &salt);
        self.ninjas[i] = units;
        assert(self@.ninjas =~= old(self)@.ninjas.update(i as int, committed_units(setup, salt)));
        self.last_action = block;
        if rest.len() == 0 {
            self.phase_state = PhaseState::Move;
            self.game_state = GameState::Running(self.players[0]);
        } else {
            self.game_state = GameState::Prepare(rest);
        }
        Ok(())
    }

    fn resolve(
        &mut self,
        ax: usize,
        ay: usize,
        dx: usize,
        dy: usize,
        a: usize,
        ka: usize,
        d: usize,
        kd: usize,
        wa: Weapon,
        wd: Weapon,
    )
        requires
            ax < 7,
            ay < 6,
            dx < 7,
            dy < 6,
            a < 2,
            d < 2,
            ka < old(self)@.ninjas[a as int].len(),
            kd < old(self)@.ninjas[d as int].len(),
            old(self)@.players.len() == 2,
        ensures
            final(self)@ == resolve_spec(
                old(self)@,
                ax as int,
                ay as int,
                dx as int,
                dy as int,
                a as int,
                ka as int,
                d as int,
                kd as int,
                wa,
                wd,
            ),
    {
        let outcome = Logic::combat(&wa, &wd);
        if outcome == ATTACKER_WINS {
            let av = self.board[ax][ay];
            self.set_unit(d, kd, NinjaState::Dead);
            self.set_cell(ax, ay, EMPTY_CELL);
            self.set_cell(dx, dy, av);
            self.phase_state = PhaseState::Move;
            self.game_state = GameState::Running(self.players[d]);
        } else if outcome == DEFENDER_WINS {
            self.set_unit(a, ka, NinjaState::Dead);
            self.set_cell(ax, ay, EMPTY_CELL);
            self.phase_state = PhaseState::Move;
            self.game_state = GameState::Running(self.players[d]);
        } else {
            self.phase_state = PhaseState::Choose(self.players.clone());
        }
    }

    /// The player at turn moves the unit at `position` one step in `direction`.
    pub fn play_move(&mut self, player: u64, position: [u8; 2], direction: Direction, block: u64) -> (r: Result<(), Error>)
        ensures
            match move_spec(old(self)@, player, position, direction, block) {
                Ok(g) => r is Ok && final(self)@ == g,
                Err(e) => r == Err::<(), Error>(e) && *final(self) == *old(self),
            },
    {
        let i = match index_of(&self.players, player) {
            Some(i) => i,
            None => {
                return Err(Error::GameNotFound);
            },
        };
        let turn = match &self.game_state {
            GameState::Running(t) => *t,
            _ => {
                return Err(Error::WrongLifecycleState);
            },
        };
        if !Logic::position(position) {
            return Err(Error::OutOfRangeIndex);
        }
        match &self.phase_state {
            PhaseState::Move => {},
            _ => {
                return Err(Error::WrongPhaseState);
            },
        }
        if turn != player {
            return Err(Error::NotYourTurn);
        }
        let x = position[0] as usize;
        let y = position[1] as usize;
        let origin = self.board[x][y];
        let k = match unit_of(origin, i) {
            Some(k) => k as usize,
            None => {
                return Err(Error::IllegalMove);
            },
        };
        let code = direction.code();
        let mut dest = position;
        if !Logic::destination(i as u8, &mut dest, code) {
            return Err(Error::IllegalMove);
        }
        let dx = dest[0] as usize;
        let dy = dest[1] as usize;
        let target = self.board[dx][dy];
        if unit_of(target, i).is_some() {
            return Err(Error::IllegalMove);
        }
        let record: [u8; 5] = [position[0], position[1], code, dest[0], dest[1]];
        assert(record == move_record(position[0], position[1], code, dest[0], dest[1]));
        if target == EMPTY_CELL {
            self.set_cell(dx, dy, origin);
            self.set_cell(x, y, EMPTY_CELL);
            self.last_move = record;
            self.last_action = block;
            self.game_state = GameState::Running(self.players[1 - i]);
            return Ok(());
        }
        let o = 1 - i;
        let k2 = match unit_of(target, o) {
            Some(k2) => k2 as usize,
            None => {
                return Err(Error::IllegalMove);
            },
        };
        if k >= self.ninjas[i].len() || k2 >= self.ninjas[o].len() {
            return Err(Error::IllegalMove);
        }
        let a = self.ninjas[i][k];
        let b = self.ninjas[o][k2];
        let mut pending: Vec<u64> = Vec::new();
        match a {
            NinjaState::Stealth(_) => pending.push(self.players[i]),
            NinjaState::Reveal(_) => {},
            _ => {
                return Err(Error::IllegalMove);
            },
        }
        match b {
            NinjaState::Stealth(_) => pending.push(self.players[o]),
            NinjaState::Reveal(_) => {},
            _ => {
                return Err(Error::IllegalMove);
            },
        }
        self.last_move = record;
        self.last_action = block;
        if pending.len() > 0 {
            proof {
                let ghost ps = old(self)@.players;
                let ghost expected = (if a is Stealth {
                    seq![ps[i as int]]
                } else {
                    Seq::empty()
                }) + (if b is Stealth {
                    seq![ps[o as int]]
                } else {
                    Seq::empty()
                });
                assert(pending@ =~= expected);
            }
            self.phase_state = PhaseState::Reveal(pending);
            return Ok(());
        }
        match (a, b) {
            (NinjaState::Reveal(wa), NinjaState::Reveal(wd)) => {
                self.resolve(x, y, dx, dy, i, k, o, k2, wa, wd);
            },
            _ => {},
        }
        Ok(())
    }

    fn contested_unit(&self, i: usize, player: u64, turn: u64, ninja: u8) -> (r: Option<Error>)
        requires
            i < 2,
        ensures
            r == contested_unit_error(self@, i as int, player, turn, ninja),
    {
        let lm = self.last_move;
        if !(lm[0] < 7 && lm[1] < 6 && lm[3] < 7 && lm[4] < 6) {
            return Some(Error::IllegalMove);
        }
        let cell = if player == turn {
            self.board[lm[0] as usize][lm[1] as usize]
        } else {
            self.board[lm[3] as usize][lm[4] as usize]
        };
        match unit_of(cell, i) {
            Some(k) => if k != ninja {
                return Some(Error::IllegalMove);
            },
            None => {
                return Some(Error::IllegalMove);
            },
        }
        if ninja as usize >= self.ninjas[i].len() {
            return Some(Error::IllegalMove);
        }
        None
    }

    fn settle(&mut self, turn: u64) -> (r: Result<(), Error>)
        requires
            last_move_on_board(old(self)@.last_move),
        ensures
            match settle_spec(old(self)@, turn) {
                Ok(g) => r is Ok && final(self)@ == g,
                Err(e) => r == Err::<(), Error>(e) && *final(self) == *old(self),
            },
    {
        let a = match index_of(&self.players, turn) {
            Some(a) => a,
            None => {
                return Err(Error::IllegalMove);
            },
        };
        let d = 1 - a;
        let ax = self.last_move[0] as usize;
        let ay = self.last_move[1] as usize;
        let dx = self.last_move[3] as usize;
        let dy = self.last_move[4] as usize;
        let ka = match unit_of(self.board[ax][ay], a) {
            Some(k) => k as usize,
            None => {
                return Err(Error::IllegalMove);
            },
        };
        let kd = match unit_of(self.board[dx][dy], d) {
            Some(k) => k as usize,
            None => {
                return Err(Error::IllegalMove);
            },
        };
        if ka >= self.ninjas[a].len() || kd >= self.ninjas[d].len() {
            return Err(Error::IllegalMove);
        }
        match (self.ninjas[a][ka], self.ninjas[d][kd]) {
            (NinjaState::Reveal(wa), NinjaState::Reveal(wd)) => {
                self.resolve(ax, ay, dx, dy, a, ka, d, kd, wa, wd);
                Ok(())
            },
            _ => Err(Error::IllegalMove),
        }
    }

    /// A player in the pending set reveals the weapon of their contested unit.
    pub fn reveal_position(&mut self, player: u64, ninja: u8, weapon: Weapon, salt: [u8; 32], block: u64) -> (r: Result<(), Error>)
        ensures
            match reveal_spec(old(self)@, player, ninja, weapon, salt, block) {
                Ok(g) => r is Ok && final(self)@ == g,
                Err(e) => r == Err::<(), Error>(e) && final(self)@ == old(self)@,
            },
    {
        let i = match index_of(&self.players, player) {
            Some(i) => i,
            None => {
                return Err(Error::GameNotFound);
            },
        };
        let turn = match &self.game_state {
            GameState::Running(t) => *t,
            _ => {
                return Err(Error::WrongLifecycleState);
            },
        };
        if ninja >= 14 {
            return Err(Error::OutOfRangeIndex);
        }
        let rest = match &self.phase_state {
            PhaseState::Reveal(pending) => {
                if !contains_player(pending, player) {
                    return Err(Error::WrongPhaseState);
                }
                remove_player(pending, player)
            },
            _ => {
                return Err(Error::WrongPhaseState);
            },
        };
        match self.contested_unit(i, player, turn, ninja) {
            Some(e) => {
                return Err(e);
            },
            None => {},
        }
        let k = ninja as usize;
        let previous = self.ninjas[i][k];
        match previous {
            NinjaState::Stealth(h) => {
                if !verify(&h, &salt, ninja, &weapon) {
                    return Err(Error::CommitmentMismatch);
                }
            },
            _ => {
                return Err(Error::IllegalMove);
            },
        }
        let ghost before = self@;
        self.set_unit(i, k, NinjaState::Reveal(weapon));
        let old_action = self.last_action;
        self.last_action = block;
        if rest.len() > 0 {
            self.phase_state = PhaseState::Reveal(rest);
            return Ok(());
        }
        let settled = self.settle(turn);
        if settled.is_err() {
            self.last_action = old_action;
            self.set_unit(i, k, previous);
            assert(self@.ninjas[i as int] =~= before.ninjas[i as int]);
            assert(self@.ninjas =~= before.ninjas);
        }
        settled
    }

    /// A player in the pending set commits a new weapon for their contested unit.
    pub fn choose_weapon(&mut self, player: u64, ninja: u8, weapon: Weapon, salt: [u8; 32], block: u64) -> (r: Result<(), Error>)
        ensures
            match choose_spec(old(self)@, player, ninja, weapon, salt, block) {
                Ok(g) => r is Ok && final(self)@ == g,
                Err(e) => r == Err::<(), Error>(e) && *final(self) == *old(self),
            },
    {
        let i = match index_of(&self.players, player) {
            Some(i) => i,
            None => {
                return Err(Error::GameNotFound);
            },
        };
        let turn = match &self.game_state {
            GameState::Running(t) => *t,
            _ => {
                return Err(Error::WrongLifecycleState);
            },
        };
        if ninja >= 14 {
            return Err(Error::OutOfRangeIndex);
        }
        let rest = match &self.phase_state {
            PhaseState::Choose(pending) => {
                if !contains_player(pending, player) {
                    return Err(Error::WrongPhaseState);
                }
                remove_player(pending, player)
            },
            _ => {
                return Err(Error::WrongPhaseState);
            },
        };
        match self.contested_unit(i, player, turn, ninja) {
            Some(e) => {
                return Err(e);
            },
            None => {},
        }
        let k = ninja as usize;
        match self.ninjas[i][k] {
            NinjaState::Reveal(_) => {},
            _ => {
                return Err(Error::IllegalMove);
            },
        }
        let hash = Pallet::hash_choice(salt, ninja as usize, weapon);
        self.set_unit(i, k, NinjaState::Stealth(hash));
        self.last_action = block;
        if rest.len() > 0 {
            self.phase_state = PhaseState::Choose(rest);
        } else {
            self.phase_state = PhaseState::Reveal(self.players.clone());
        }
        Ok(())
    }
}


/// Whether `after` is the same game as `before`: same identifier, same
/// participants, a unit sequence for each of them.
pub open spec fn same_game(before: GameView, after: GameView) -> bool {
    &&& after.id == before.id
    &&& after.players == before.players
    &&& after.ninjas.len() == before.ninjas.len()
}

/// No accepted action changes a game's identifier, its participants or the
/// number of its unit sequences.
pub proof fn lemma_actions_keep_game(
    g: GameView,
    player: u64,
    setup: [u8; 14],
    position: [u8; 2],
    direction: Direction,
    ninja: u8,
    weapon: Weapon,
    salt: [u8; 32],
    block: u64,
)
    requires
        g.ninjas.len() == 2,
    ensures
        initiate_spec(g, player, block) is Ok ==> same_game(g, initiate_spec(g, player, block)->Ok_0),
        prepare_spec(g, player, setup, salt, block) is Ok ==> same_game(
            g,
            prepare_spec(g, player, setup, salt, block)->Ok_0,
        ),
        move_spec(g, player, position, direction, block) is Ok ==> same_game(
            g,
            move_spec(g, player, position, direction, block)->Ok_0,
        ),
        reveal_spec(g, player, ninja, weapon, salt, block) is Ok ==> same_game(
            g,
            reveal_spec(g, player, ninja, weapon, salt, block)->Ok_0,
        ),
        choose_spec(g, player, ninja, weapon, salt, block) is Ok ==> same_game(
            g,
            choose_spec(g, player, ninja, weapon, salt, block)->Ok_0,
        ),
{
}

/// A valid loadout is accepted from a participant who still has to submit
/// one while the game prepares.
pub proof fn lemma_valid_loadout_accepted(
    g: GameView,
    player: u64,
    setup: [u8; 14],
    salt: [u8; 32],
    block: u64,
)
    requires
        player_index(g.players, player) is Some,
        g.state is Prepare,
        g.state->Prepare_0.contains(player),
        loadout_valid(setup),
    ensures
        prepare_spec(g, player, setup, salt, block) is Ok,
{
}

/// A loadout that does not use every slot code exactly once is rejected with
/// `InvalidLoadout` from a participant who still has to submit one while the
/// game prepares.
pub proof fn lemma_invalid_loadout_rejected(
    g: GameView,
    player: u64,
    setup: [u8; 14],
    salt: [u8; 32],
    block: u64,
)
    requires
        player_index(g.players, player) is Some,
        g.state is Prepare,
        g.state->Prepare_0.contains(player),
        !loadout_valid(setup),
    ensures
        prepare_spec(g, player, setup, salt, block) == Err::<GameView, Error>(Error::InvalidLoadout),
{
}

/// The units of a loadout that carry weapon `w`.
pub open spec fn class_slots(setup: [u8; 14], w: Weapon) -> Set<int> {
    Set::new(|k: int| 0 <= k < 14 && slot_weapon(setup[k]) == w)
}

spec fn code_used(setup: [u8; 14], c: int) -> bool {
    exists|k: int| 0 <= k < 14 && setup[k] as int == c
}

/// A valid loadout reaches every slot code.
proof fn lemma_valid_loadout_onto(setup: [u8; 14])
    requires
        loadout_valid(setup),
    ensures
        forall|c: int| 0 <= c < 14 ==> #[trigger] code_used(setup, c),
{
    let f = |k: int| setup[k] as int;
    let range = vstd::set_lib::set_int_range(0, 14);
    vstd::set_lib::lemma_int_range(0, 14);
    assert(vstd::relations::injective_on(f, range));
    vstd::set_lib::lemma_map_size(range, range.map(f), f);
    assert(range.map(f).subset_of(range));
    vstd::set_lib::lemma_subset_equality(range.map(f), range);
    assert forall|c: int| 0 <= c < 14 implies #[trigger] code_used(setup, c) by {
        assert(range.contains(c));
        assert(range.map(f).contains(c));
    }
}

/// In a valid loadout, as many units carry `w` as slot codes in [lo, hi) stand for it.
proof fn lemma_class_count(setup: [u8; 14], w: Weapon, lo: int, hi: int)
    requires
        loadout_valid(setup),
        0 <= lo <= hi <= 14,
        forall|c: int| 0 <= c < 14 ==> (#[trigger] slot_weapon(c as u8) == w <==> lo <= c < hi),
    ensures
        class_slots(setup, w).len() == hi - lo,
{
    let f = |k: int| setup[k] as int;
    let slots = class_slots(setup, w);
    let codes = vstd::set_lib::set_int_range(lo, hi);
    lemma_valid_loadout_onto(setup);
    vstd::set_lib::lemma_int_range(0, 14);
    vstd::set_lib::lemma_int_range(lo, hi);
    assert(slots.subset_of(vstd::set_lib::set_int_range(0, 14)));
    vstd::set_lib::lemma_len_subset(slots, vstd::set_lib::set_int_range(0, 14));
    assert(vstd::relations::injective_on(f, slots));
    assert forall|c: int| #[trigger] codes.contains(c) implies slots.map(f).contains(c) by {
        assert(code_used(setup, c));
        let k = choose|k: int| 0 <= k < 14 && setup[k] as int == c;
        assert(slot_weapon(setup[k]) == slot_weapon(c as u8));
        assert(slots.contains(k));
    }
    assert forall|c: int| #[trigger] slots.map(f).contains(c) implies codes.contains(c) by {
        let k = choose|k: int| slots.contains(k) && f(k) == c;
        assert(setup[k] < 14);
        assert((c as u8) == setup[k]);
        assert(slot_weapon(c as u8) == w);
    }
    assert(slots.map(f) =~= codes);
    vstd::set_lib::lemma_map_size(slots, codes, f);
}

/// A valid loadout gives one king, one trap, four rocks, four papers and four
/// scissors; so a loadout with other counts is not valid, and is rejected.
pub proof fn lemma_valid_loadout_class_counts(setup: [u8; 14])
    requires
        loadout_valid(setup),
    ensures
        class_slots(setup, Weapon::King).len() == 1,
        class_slots(setup, Weapon::Trap).len() == 1,
        class_slots(setup, Weapon::Rock).len() == 4,
        class_slots(setup, Weapon::Paper).len() == 4,
        class_slots(setup, Weapon::Scissor).len() == 4,
{
    lemma_class_count(setup, Weapon::King, 0, 1);
    lemma_class_count(setup, Weapon::Trap, 1, 2);
    lemma_class_count(setup, Weapon::Rock, 2, 6);
    lemma_class_count(setup, Weapon::Paper, 6, 10);
    lemma_class_count(setup, Weapon::Scissor, 10, 14);
}

/// A reveal is accepted only when the salt and weapon reproduce the
/// commitment that the player's unit holds.
pub proof fn lemma_reveal_needs_commitment(
    g: GameView,
    player: u64,
    ninja: u8,
    weapon: Weapon,
    salt: [u8; 32],
    block: u64,
)
    requires
        reveal_spec(g, player, ninja, weapon, salt, block) is Ok,
    ensures
        match player_index(g.players, player) {
            Some(i) => {
                &&& g.ninjas[i][ninja as int] is Stealth
                &&& verifies(g.ninjas[i][ninja as int]->Stealth_0, salt@, ninja, weapon)
            },
            None => false,
        },
{
}

/// Where every other check passes, a salt and weapon that do not reproduce
/// the commitment are rejected with `CommitmentMismatch` (and a rejected
/// action leaves the game, the unit included, as it was).
pub proof fn lemma_reveal_mismatch_rejected(
    g: GameView,
    player: u64,
    ninja: u8,
    weapon: Weapon,
    salt: [u8; 32],
    block: u64,
)
    requires
        player_index(g.players, player) is Some,
        g.state is Running,
        ninja < 14,
        g.phase is Reveal,
        g.phase->Reveal_0.contains(player),
        contested_unit_error(
            g,
            player_index(g.players, player)->Some_0,
            player,
            g.state->Running_0,
            ninja,
        ) is None,
        g.ninjas[player_index(g.players, player)->Some_0][ninja as int] is Stealth,
        !verifies(
            g.ninjas[player_index(g.players, player)->Some_0][ninja as int]->Stealth_0,
            salt@,
            ninja,
            weapon,
        ),
    ensures
        reveal_spec(g, player, ninja, weapon, salt, block) == Err::<GameView, Error>(Error::CommitmentMismatch),
{
}

/// A unit index of 14 or more is rejected with `OutOfRangeIndex` by reveal
/// and choose in a running game, before the phase or any unit is looked at.
pub proof fn lemma_unit_index_out_of_range(
    g: GameView,
    player: u64,
    ninja: u8,
    weapon: Weapon,
    salt: [u8; 32],
    block: u64,
)
    requires
        player_index(g.players, player) is Some,
        g.state is Running,
        ninja >= 14,
    ensures
        reveal_spec(g, player, ninja, weapon, salt, block) == Err::<GameView, Error>(Error::OutOfRangeIndex),
        choose_spec(g, player, ninja, weapon, salt, block) == Err::<GameView, Error>(Error::OutOfRangeIndex),
{
}

/// A unit index of 14 or more is never accepted by reveal or choose, whatever
/// the game's state; rejected actions change nothing.
pub proof fn lemma_unit_index_never_accepted(
    g: GameView,
    player: u64,
    ninja: u8,
    weapon: Weapon,
    salt: [u8; 32],
    block: u64,
)
    requires
        ninja >= 14,
    ensures
        reveal_spec(g, player, ninja, weapon, salt, block) is Err,
        choose_spec(g, player, ninja, weapon, salt, block) is Err,
{
}

/// After an accepted move the turn is handed to the other participant when
/// the phase is back to `Move`; while a reveal or choose phase follows, the
/// turn holder stays.
pub proof fn lemma_move_turn(g: GameView, player: u64, position: [u8; 2], direction: Direction, block: u64)
    requires
        move_spec(g, player, position, direction, block) is Ok,
    ensures
        ({
            let g2 = move_spec(g, player, position, direction, block)->Ok_0;
            let i = player_index(g.players, player)->Some_0;
            &&& player_index(g.players, player) is Some
            &&& g.state == GameStateView::Running(player)
            &&& g2.phase is Move ==> g2.state == GameStateView::Running(g.players[other(i)])
            &&& !(g2.phase is Move) ==> g2.state == g.state
        }),
{
}

/// During a reveal phase the turn holder stays until the fight is decided;
/// a decided fight hands the turn to the participant who did not move.
pub proof fn lemma_reveal_turn(
    g: GameView,
    player: u64,
    ninja: u8,
    weapon: Weapon,
    salt: [u8; 32],
    block: u64,
)
    requires
        reveal_spec(g, player, ninja, weapon, salt, block) is Ok,
    ensures
        ({
            let g2 = reveal_spec(g, player, ninja, weapon, salt, block)->Ok_0;
            let mover = g.state->Running_0;
            &&& g.state is Running
            &&& !(g2.phase is Move) ==> g2.state == g.state
            &&& g2.phase is Move ==> player_index(g.players, mover) is Some && g2.state
                == GameStateView::Running(g.players[other(player_index(g.players, mover)->Some_0)])
        }),
{
}

/// A choose phase never changes the turn holder.
pub proof fn lemma_choose_turn(
    g: GameView,
    player: u64,
    ninja: u8,
    weapon: Weapon,
    salt: [u8; 32],
    block: u64,
)
    requires
        choose_spec(g, player, ninja, weapon, salt, block) is Ok,
    ensures
        choose_spec(g, player, ninja, weapon, salt, block)->Ok_0.state == g.state,
        !(choose_spec(g, player, ninja, weapon, salt, block)->Ok_0.phase is Move),
{
}

} // verus!
