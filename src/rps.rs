use vstd::prelude::*;
use std::collections::HashMap;
use crate::commitment::{blake2_256, blake2_256_of, bytes_equal};
use crate::error::Error;
use crate::rps_online::{game_id, generate_game_id, le_bytes};

verus! {

broadcast use vstd::std_specs::hash::group_hash_axioms;

/// Where a player stands in a single round of rock, paper, scissors.
#[derive(Debug, Clone, Copy, PartialEq, Eq, Structural)]
pub enum MatchState {
    Idle,
    Choose,
    Reveal,
    Resolution,
    Won,
    Draw,
    Lost,
}

/// A hand.
#[derive(Debug, Clone, Copy, PartialEq, Eq, Structural)]
pub enum WeaponType {
    Unarmed,
    Rock,
    Paper,
    Scissors,
}

impl WeaponType {
    pub open spec fn spec_code(self) -> u8 {
        match self {
            WeaponType::Unarmed => 0,
            WeaponType::Rock => 1,
            WeaponType::Paper => 2,
            WeaponType::Scissors => 3,
        }
    }

    /// The wire code of the hand, its position in the declaration.
    pub fn code(&self) -> (r: u8)
        ensures
            r == self.spec_code(),
    {
        match self {
            WeaponType::Unarmed => 0,
            WeaponType::Rock => 1,
            WeaponType::Paper => 2,
            WeaponType::Scissors => 3,
        }
    }
}

impl Default for MatchState {
    fn default() -> (r: MatchState)
        ensures
            r == MatchState::Idle,
    {
        MatchState::Idle
    }
}

impl Default for WeaponType {
    fn default() -> (r: WeaponType)
        ensures
            r == WeaponType::Unarmed,
    {
        WeaponType::Unarmed
    }
}

/// A player's choice: nothing yet, hidden behind a commitment, or revealed.
#[derive(Debug, Clone, Copy, PartialEq, Eq)]
pub enum Choice {
    Empty,
    Choose([u8; 32]),
    Reveal(WeaponType),
}

impl Default for Choice {
    fn default() -> (r: Choice)
        ensures
            r == Choice::Empty,
    {
        Choice::Empty
    }
}

/// One round between two players.
#[derive(Debug, Clone, Copy, PartialEq, Eq)]
pub struct Game {
    pub id: [u8; 32],
    pub players: [u64; 2],
    pub choices: [Choice; 2],
    pub states: [MatchState; 2],
}

/// The outcome of hand `a` against hand `b`: 0 a draw, 1 `a` wins, 2 `b`
/// wins. Equal hands draw; no hand loses to nothing but nothing loses to any hand.
pub open spec fn rps_outcome(a: WeaponType, b: WeaponType) -> u8 {
    if a == b {
        0
    } else {
        match a {
            WeaponType::Unarmed => 2,
            WeaponType::Rock => if b == WeaponType::Paper {
                2
            } else {
                1
            },
            WeaponType::Paper => if b == WeaponType::Scissors {
                2
            } else {
                1
            },
            WeaponType::Scissors => if b == WeaponType::Rock {
                2
            } else {
                1
            },
        }
    }
}

/// The commitment to `choice` under `salt`: the salt with its last byte
/// replaced by the hand's code, hashed, and the digest hashed again.
pub open spec fn choice_commitment(salt: Seq<u8>, choice: WeaponType) -> [u8; 32] {
    blake2_256_of(blake2_256_of(salt.update(31, choice.spec_code()))@)
}

/// The seat of `player`: the second seat is looked at first.
pub open spec fn seat(g: Game, player: u64) -> Option<int> {
    if g.players[1] == player {
        Some(1)
    } else if g.players[0] == player {
        Some(0)
    } else {
        None
    }
}

/// Choosing a hand: once per round, hidden behind its commitment.
pub open spec fn choose_spec(g: Game, player: u64, choice: WeaponType, salt: [u8; 32]) -> Result<Game, Error> {
    match seat(g, player) {
        None => Err(Error::GameNotFound),
        Some(me) => if g.states[me] != MatchState::Choose {
            Err(Error::AlreadySubmitted)
        } else {
            Ok(
                Game {
                    choices: vstd::array::spec_array_update(g.choices, me, Choice::Choose(choice_commitment(salt@, choice))),
                    states: vstd::array::spec_array_update(g.states, me, MatchState::Reveal),
                    ..g
                },
            )
        },
    }
}

/// The hand revealed in a choice, `Unarmed` where none was.
pub open spec fn revealed_hand(c: Choice) -> WeaponType {
    match c {
        Choice::Reveal(w) => w,
        _ => WeaponType::Unarmed,
    }
}

/// The states once both hands are revealed: a draw, or one winner and one loser.
pub open spec fn settle_spec(g: Game, me: int) -> Game {
    let he = 1 - me;
    let outcome = rps_outcome(revealed_hand(g.choices[me]), revealed_hand(g.choices[he]));
    let (mine, his) = if outcome == 1 {
        (MatchState::Won, MatchState::Lost)
    } else if outcome == 2 {
        (MatchState::Lost, MatchState::Won)
    } else {
        (MatchState::Draw, MatchState::Draw)
    };
    Game {
        states: vstd::array::spec_array_update(vstd::array::spec_array_update(g.states, me, mine), he, his),
        ..g
    }
}

/// Revealing a hand: only after both players chose, and only with the salt
/// and hand that reproduce the commitment. The second reveal decides the round.
pub open spec fn reveal_spec(g: Game, player: u64, choice: WeaponType, salt: [u8; 32]) -> Result<Game, Error> {
    match seat(g, player) {
        None => Err(Error::GameNotFound),
        Some(me) => {
            let he = 1 - me;
            if !(g.states[me] == MatchState::Reveal && (g.states[he] == MatchState::Reveal
                || g.states[he] == MatchState::Resolution)) {
                Err(Error::WrongPhaseState)
            } else {
                match g.choices[me] {
                    Choice::Choose(h) => if h != choice_commitment(salt@, choice) {
                        Err(Error::CommitmentMismatch)
                    } else {
                        let g1 = Game {
                            choices: vstd::array::spec_array_update(g.choices, me, Choice::Reveal(choice)),
                            states: vstd::array::spec_array_update(g.states, me, MatchState::Resolution),
                            ..g
                        };
                        if g1.states[he] == MatchState::Resolution {
                            Ok(settle_spec(g1, me))
                        } else {
                            Ok(g1)
                        }
                    },
                    _ => Err(Error::WrongPhaseState),
                }
            }
        },
    }
}

/// Hand `a` against hand `b`: 0 a draw, 1 `a` wins, 2 `b` wins.
pub fn game_logic(a: &WeaponType, b: &WeaponType) -> (r: u8)
    ensures
        r == rps_outcome(*a, *b),
{
    if *a == *b {
        return 0;
    }
    match a {
        WeaponType::Unarmed => 2,
        WeaponType::Rock => if *b == WeaponType::Paper {
            2
        } else {
            1
        },
        WeaponType::Paper => if *b == WeaponType::Scissors {
            2
        } else {
            1
        },
        WeaponType::Scissors => if *b == WeaponType::Rock {
            2
        } else {
            1
        },
    }
}

fn seat_of(g: &Game, player: u64) -> (r: Option<usize>)
    ensures
        match seat(*g, player) {
            Some(me) => r == Some(me as usize),
            None => r is None,
        },
{
    if g.players[1] == player {
        Some(1)
    } else if g.players[0] == player {
        Some(0)
    } else {
        None
    }
}

impl Game {
    /// `player` chooses a hand, hidden behind its commitment under `salt`.
    pub fn choose_hand(&mut self, player: u64, choice: WeaponType, salt: [u8; 32]) -> (r: Result<(), Error>)
        ensures
            match choose_spec(*old(self), player, choice, salt) {
                Ok(g) => r is Ok && *final(self) == g,
                Err(e) => r == Err::<(), Error>(e) && *final(self) == *old(self),
            },
    {
        let me = match seat_of(self, player) {
            Some(me) => me,
            None => {
                return Err(Error::GameNotFound);
            },
        };
        if self.states[me] != MatchState::Choose {
            return Err(Error::AlreadySubmitted);
        }
        self.choices[me] = Choice::Choose(Pallet::hash_choice(&salt, &choice));
        self.states[me] = MatchState::Reveal;
        Ok(())
    }

    /// `player` reveals their hand; the second reveal decides the round.
    pub fn reveal_hand(&mut self, player: u64, choice: WeaponType, salt: [u8; 32]) -> (r: Result<(), Error>)
        ensures
            match reveal_spec(*old(self), player, choice, salt) {
                Ok(g) => r is Ok && *final(self) == g,
                Err(e) => r == Err::<(), Error>(e) && *final(self) == *old(self),
            },
    {
        let me = match seat_of(self, player) {
            Some(me) => me,
            None => {
                return Err(Error::GameNotFound);
            },
        };
        let he = 1 - me;
        if !(self.states[me] == MatchState::Reveal && (self.states[he] == MatchState::Reveal
            || self.states[he] == MatchState::Resolution)) {
            return Err(Error::WrongPhaseState);
        }
        match self.choices[me] {
            Choice::Choose(h) => {
                let expected = Pallet::hash_choice(&salt, &choice);
                if !bytes_equal(&h, &expected) {
                    proof {
                        if h == expected {
                            assert(h@ == expected@);
                        }
                    }
                    return Err(Error::CommitmentMismatch);
                }
                assert(h =~= expected);
            },
            _ => {
                return Err(Error::WrongPhaseState);
            },
        }
        self.choices[me] = Choice::Reveal(choice);
        self.states[me] = MatchState::Resolution;
        if self.states[he] == MatchState::Resolution {
            let mine = match self.choices[me] {
                Choice::Reveal(w) => w,
                _ => WeaponType::Unarmed,
            };
            let his = match self.choices[he] {
                Choice::Reveal(w) => w,
                _ => WeaponType::Unarmed,
            };
            let outcome = game_logic(&mine, &his);
            if outcome == 1 {
                self.states[me] = MatchState::Won;
                self.states[he] = MatchState::Lost;
            } else if outcome == 2 {
                self.states[me] = MatchState::Lost;
                self.states[he] = MatchState::Won;
            } else {
                self.states[me] = MatchState::Draw;
                self.states[he] = MatchState::Draw;
            }
        }
        Ok(())
    }
}

/// The bytes hashed into the seed of a round created at `block`: the
/// encoding of the byte vector made of the block number's eight bytes and
/// the word `create`.
pub open spec fn seed_preimage(block: u64) -> Seq<u8> {
    seq![56u8] + le_bytes(block) + seq![99u8, 114u8, 101u8, 97u8, 116u8, 101u8]
}

/// The seed that identifiers of rounds created at `block` are drawn from.
pub open spec fn block_seed(block: u64) -> [u8; 32] {
    blake2_256_of(seed_preimage(block))
}

/// The seed that identifiers of rounds created at `block` are drawn from.
pub fn seed_of_block(block: u64) -> (r: [u8; 32])
    ensures
        r == block_seed(block),
{
    let mut data: Vec<u8> = Vec::new();
    data.push(56u8);
    let mut i: u64 = 0;
    while i < 8
        invariant
            0 <= i <= 8,
            data@ == seq![56u8] + le_bytes(block).subrange(0, i as int),
        decreases 8 - i,
    {
        data.push((block >> (8 * i)) as u8);
        assert(data@ =~= seq![56u8] + le_bytes(block).subrange(0, i as int + 1));
        i = i + 1;
    }
    assert(le_bytes(block).subrange(0, 8) =~= le_bytes(block));
    data.push(99u8);
    data.push(114u8);
    data.push(101u8);
    data.push(97u8);
    data.push(116u8);
    data.push(101u8);
    assert(data@ =~= seed_preimage(block));
    blake2_256(data.as_slice())
}

/// Rounds of rock, paper, scissors: each round by its identifier, each
/// player's active round, and the nonce that makes identifiers differ.
pub struct Pallet {
    games: Vec<Game>,
    player_games: HashMap<u64, [u8; 32]>,
    nonce: u64,
}

/// The registry of rounds as the contracts see it.
pub struct PalletView {
    pub games: Seq<Game>,
    pub player_games: Map<u64, [u8; 32]>,
    pub nonce: u64,
}

impl View for Pallet {
    type V = PalletView;

    closed spec fn view(&self) -> PalletView {
        PalletView { games: self.games@, player_games: self.player_games@, nonce: self.nonce }
    }
}

/// Whether `j` is the first position of a round with identifier `id`.
pub open spec fn is_first_slot(games: Seq<Game>, id: [u8; 32], j: int) -> bool {
    &&& 0 <= j < games.len()
    &&& games[j].id == id
    &&& forall|k: int| 0 <= k < j ==> games[k].id != id
}

/// The position of the round with identifier `id`, if there is one.
pub open spec fn game_slot(games: Seq<Game>, id: [u8; 32]) -> Option<int> {
    if exists|j: int| is_first_slot(games, id, j) {
        Some(choose|j: int| is_first_slot(games, id, j))
    } else {
        None
    }
}

/// The position of `player`'s active round, if they have one and it exists.
pub open spec fn active_slot(p: PalletView, player: u64) -> Option<int> {
    if p.player_games.contains_key(player) {
        game_slot(p.games, p.player_games[player])
    } else {
        None
    }
}

/// An action of `player` on their active round, as `step` describes it.
pub open spec fn on_active_game(p: PalletView, player: u64, step: spec_fn(Game) -> Result<Game, Error>) -> Result<
    PalletView,
    Error,
> {
    match active_slot(p, player) {
        None => Err(Error::GameNotFound),
        Some(j) => match step(p.games[j]) {
            Ok(g) => Ok(PalletView { games: p.games.update(j, g), ..p }),
            Err(e) => Err(e),
        },
    }
}

/// Why `sender` cannot open a round against `opponent` at `block`, if they cannot.
pub open spec fn new_game_error(p: PalletView, sender: u64, opponent: u64, block: u64) -> Option<Error> {
    if sender == opponent {
        Some(Error::SelfPlayNotAllowed)
    } else if p.player_games.contains_key(sender) || p.player_games.contains_key(opponent) {
        Some(Error::PlayerAlreadyInGame)
    } else if game_slot(p.games, game_id(block_seed(block), sender, p.nonce)) is Some {
        Some(Error::PlayerAlreadyInGame)
    } else {
        None
    }
}

/// A fresh round between `sender` and `opponent`: both have to choose.
pub open spec fn new_round(id: [u8; 32], sender: u64, opponent: u64) -> Game {
    Game {
        id,
        players: [sender, opponent],
        choices: [Choice::Empty, Choice::Empty],
        states: [MatchState::Choose, MatchState::Choose],
    }
}

impl Pallet {
    /// The commitment to `choice` under `salt`.
    pub fn hash_choice(salt: &[u8; 32], choice: &WeaponType) -> (r: [u8; 32])
        ensures
            r == choice_commitment(salt@, *choice),
    {
        let mut choice_value: [u8; 32] = *salt;
        choice_value[31] = choice.code();
        assert(choice_value@ =~= salt@.update(31, choice.spec_code()));
        let choice_hashed = blake2_256(&choice_value);
        blake2_256(&choice_hashed)
    }

    /// An empty registry of rounds.
    pub fn new() -> (r: Pallet)
        ensures
            r@.games.len() == 0,
            r@.player_games.is_empty(),
            r@.nonce == 0,
    {
        Pallet { games: Vec::new(), player_games: HashMap::new(), nonce: 0 }
    }

    /// The round with identifier `id`.
    pub fn games(&self, id: &[u8; 32]) -> (r: Option<Game>)
        ensures
            match game_slot(self@.games, *id) {
                Some(j) => r == Some(self@.games[j]),
                None => r is None,
            },
    {
        match self.slot_of(id) {
            Some(j) => {
                proof {
                    let k = choose|k: int| is_first_slot(self@.games, *id, k);
                    assert(is_first_slot(self@.games, *id, k));
                    assert(k == j);
                }
                Some(self.games[j])
            },
            None => None,
        }
    }

    /// The identifier of `player`'s active round.
    pub fn player_game(&self, player: u64) -> (r: Option<[u8; 32]>)
        ensures
            r == (if self@.player_games.contains_key(player) {
                Some(self@.player_games[player])
            } else {
                None
            }),
    {
        match self.player_games.get(&player) {
            Some(id) => Some(*id),
            None => None,
        }
    }

    fn slot_of(&self, id: &[u8; 32]) -> (r: Option<usize>)
        ensures
            match game_slot(self@.games, *id) {
                Some(j) => r is Some && r->Some_0 as int == j,
                None => r is None,
            },
    {
        let mut i: usize = 0;
        while i < self.games.len()
            invariant
                0 <= i <= self.games@.len(),
                forall|k: int| 0 <= k < i ==> #[trigger] self@.games[k].id != *id,
            decreases self.games@.len() - i,
        {
            if bytes_equal(&self.games[i].id, id) {
                proof {
                    assert(self.games[i as int].id =~= *id);
                    assert(is_first_slot(self@.games, *id, i as int));
                    let j = choose|j: int| is_first_slot(self@.games, *id, j);
                    if j < i {
                        assert(self@.games[j].id != *id);
                    }
                    if j > i {
                        assert(self@.games[i as int].id != *id);
                    }
                }
                return Some(i);
            }
            i = i + 1;
        }
        proof {
            if exists|j: int| is_first_slot(self@.games, *id, j) {
                let j = choose|j: int| is_first_slot(self@.games, *id, j);
                assert(self@.games[j].id != *id);
            }
        }
        None
    }

    /// `sender` opens a round against `opponent` at `block`; neither may have
    /// an active round. The identifier is drawn from the block's seed, the
    /// sender and the nonce, which then advances.
    pub fn new_game(&mut self, sender: u64, opponent: u64, block: u64) -> (r: Result<[u8; 32], Error>)
        ensures
            match new_game_error(old(self)@, sender, opponent, block) {
                Some(e) => r == Err::<[u8; 32], Error>(e) && final(self)@ == old(self)@,
                None => {
                    let id = game_id(block_seed(block), sender, old(self)@.nonce);
                    &&& r == Ok::<[u8; 32], Error>(id)
                    &&& final(self)@.games == old(self)@.games.push(new_round(id, sender, opponent))
                    &&& final(self)@.player_games == old(self)@.player_games.insert(sender, id).insert(opponent, id)
                    &&& final(self)@.nonce == (if old(self)@.nonce == u64::MAX { 0 } else { (old(self)@.nonce + 1) as u64 })
                },
            },
    {
        if sender == opponent {
            return Err(Error::SelfPlayNotAllowed);
        }
        if self.player_games.contains_key(&sender) || self.player_games.contains_key(&opponent) {
            return Err(Error::PlayerAlreadyInGame);
        }
        let seed = seed_of_block(block);
        let id = generate_game_id(&seed, sender, self.nonce);
        if self.slot_of(&id).is_some() {
            return Err(Error::PlayerAlreadyInGame);
        }
        self.nonce = if self.nonce == u64::MAX {
            0
        } else {
            self.nonce + 1
        };
        let game = Game {
            id,
            players: [sender, opponent],
            choices: [Choice::Empty, Choice::Empty],
            states: [MatchState::Choose, MatchState::Choose],
        };
        assert(game == new_round(id, sender, opponent));
        self.games.push(game);
        self.player_games.insert(sender, id);
        self.player_games.insert(opponent, id);
        Ok(id)
    }

    /// `player` chooses a hand in their active round.
    pub fn choose_hand(&mut self, player: u64, choice: WeaponType, salt: [u8; 32]) -> (r: Result<(), Error>)
        ensures
            match on_active_game(old(self)@, player, |g: Game| choose_spec(g, player, choice, salt)) {
                Ok(p) => r is Ok && final(self)@ == p,
                Err(e) => r == Err::<(), Error>(e) && final(self)@ == old(self)@,
            },
    {
        let j = match self.active(player) {
            Some(j) => j,
            None => {
                return Err(Error::GameNotFound);
            },
        };
        let mut g = self.games[j];
        let r = g.choose_hand(player, choice, salt);
        if r.is_ok() {
            self.games.set(j, g);
        }
        r
    }

    /// `player` reveals their hand in their active round.
    pub fn reveal_hand(&mut self, player: u64, choice: WeaponType, salt: [u8; 32]) -> (r: Result<(), Error>)
        ensures
            match on_active_game(old(self)@, player, |g: Game| reveal_spec(g, player, choice, salt)) {
                Ok(p) => r is Ok && final(self)@ == p,
                Err(e) => r == Err::<(), Error>(e) && final(self)@ == old(self)@,
            },
    {
        let j = match self.active(player) {
            Some(j) => j,
            None => {
                return Err(Error::GameNotFound);
            },
        };
        let mut g = self.games[j];
        let r = g.reveal_hand(player, choice, salt);
        if r.is_ok() {
            self.games.set(j, g);
        }
        r
    }

    fn active(&self, player: u64) -> (r: Option<usize>)
        ensures
            match active_slot(self@, player) {
                Some(j) => r is Some && r->Some_0 as int == j,
                None => r is None,
            },
    {
        match self.player_games.get(&player) {
            Some(id) => self.slot_of(id),
            None => None,
        }
    }
}

} // verus!
