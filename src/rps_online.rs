use vstd::prelude::*;
use std::collections::HashMap;
use crate::commitment::{blake2_256, blake2_256_of, bytes_equal, commit, commitment, verifies};
use crate::error::Error;
use crate::game::{
    choose_spec, initiate_spec, lemma_actions_keep_game, move_spec, player_index, prepare_spec,
    lemma_move_turn, lemma_reveal_needs_commitment, lemma_valid_loadout_accepted, loadout_valid, other,
    reveal_spec, same_game, Game, GameState, GameStateView, GameView, NinjaState, PhaseView,
};
use crate::rpscore::{initial_cell, Direction, Weapon, EMPTY_CELL};

verus! {

broadcast use vstd::std_specs::hash::group_hash_axioms;

/// The most games that one block's match round creates.
pub const MAX_GAMES_PER_BLOCK: u8 = 10;

/// The matchmaking bracket that players are queued into.
pub const DEFAULT_BRACKET: u8 = 0;

/// The registry of running games: each game by its identifier, each player's
/// active game, and the nonce that makes identifiers differ.
pub struct Pallet {
    games: Vec<Game>,
    player_games: HashMap<u64, [u8; 32]>,
    nonce: u64,
    founder_key: Option<u64>,
}

/// The registry as the contracts see it: the games in order of creation and
/// the map from players to the identifier of their active game.
pub struct PalletView {
    pub games: Seq<GameView>,
    pub player_games: Map<u64, [u8; 32]>,
    pub nonce: u64,
    pub founder_key: Option<u64>,
}

impl View for Pallet {
    type V = PalletView;

    closed spec fn view(&self) -> PalletView {
        PalletView {
            games: self.games@.map_values(|g: Game| g@),
            player_games: self.player_games@,
            nonce: self.nonce,
            founder_key: self.founder_key,
        }
    }
}

/// Whether `j` is the first position of a game with identifier `id`.
pub open spec fn is_first_slot(games: Seq<GameView>, id: [u8; 32], j: int) -> bool {
    &&& 0 <= j < games.len()
    &&& games[j].id == id
    &&& forall|k: int| 0 <= k < j ==> games[k].id != id
}

/// The position of the game with identifier `id`, if there is one.
pub open spec fn game_slot(games: Seq<GameView>, id: [u8; 32]) -> Option<int> {
    if exists|j: int| is_first_slot(games, id, j) {
        Some(choose|j: int| is_first_slot(games, id, j))
    } else {
        None
    }
}

/// The position of `player`'s active game, if the player has one and it exists.
pub open spec fn active_slot(p: PalletView, player: u64) -> Option<int> {
    if p.player_games.contains_key(player) {
        game_slot(p.games, p.player_games[player])
    } else {
        None
    }
}

/// An action of `player` on their active game, as `step` describes it on the
/// game; the registry keeps everything else.
pub open spec fn on_active_game(
    p: PalletView,
    player: u64,
    step: spec_fn(GameView) -> Result<GameView, Error>,
) -> Result<PalletView, Error> {
    match active_slot(p, player) {
        None => Err(Error::GameNotFound),
        Some(j) => match step(p.games[j]) {
            Ok(g) => Ok(PalletView { games: p.games.update(j, g), ..p }),
            Err(e) => Err(e),
        },
    }
}

/// The outcome of an action meets `spec`: on success the registry is the one
/// it gives, on failure the error is its error and nothing changed.
pub open spec fn action_matches(
    r: Result<(), Error>,
    before: PalletView,
    after: PalletView,
    spec: Result<PalletView, Error>,
) -> bool {
    match spec {
        Ok(p) => r is Ok && after == p,
        Err(e) => r == Err::<(), Error>(e) && after == before,
    }
}

/// The eight bytes of `n`, least significant first.
pub open spec fn le_bytes(n: u64) -> Seq<u8> {
    Seq::new(8, |i: int| (n >> ((8 * i) as u64)) as u8)
}

/// The bytes hashed into a game identifier: the seed, the creator's account
/// and the nonce, in the encoding of the tuple `(seed, creator, nonce bytes)`
/// (the nonce's eight bytes as a byte vector, after its length prefix 32).
pub open spec fn id_preimage(seed: [u8; 32], creator: u64, nonce: u64) -> Seq<u8> {
    seed@ + le_bytes(creator) + seq![32u8] + le_bytes(nonce)
}

/// The identifier of a game created from `seed` by `creator` at `nonce`.
pub open spec fn game_id(seed: [u8; 32], creator: u64, nonce: u64) -> [u8; 32] {
    blake2_256_of(id_preimage(seed, creator, nonce))
}

/// A newly created game: every participant has to acknowledge it.
pub open spec fn is_new_game(g: GameView, id: [u8; 32], players: Seq<u64>, block: u64) -> bool {
    &&& g.id == id
    &&& g.players == players
    &&& g.ninjas == seq![Seq::<NinjaState>::empty(), Seq::<NinjaState>::empty()]
    &&& forall|x: int, y: int| 0 <= x < 7 && 0 <= y < 6 ==> #[trigger] g.board[x][y] == initial_cell(x, y)
    &&& forall|i: int| 0 <= i < 5 ==> #[trigger] g.last_move[i] == EMPTY_CELL
    &&& g.last_action == block
    &&& g.phase == PhaseView::Empty
    &&& g.state == GameStateView::Initiate(players)
}

/// Why a game for `players` cannot be created, if it cannot: a match names
/// two distinct players, none of whom has an active game, and the new
/// identifier must be unused (creation fails closed with
/// `PlayerAlreadyInGame` where it is not).
pub open spec fn create_error(p: PalletView, players: Seq<u64>, seed: [u8; 32]) -> Option<Error> {
    if players.len() != 2 || players[0] == players[1] {
        Some(Error::SelfPlayNotAllowed)
    } else if p.player_games.contains_key(players[0]) || p.player_games.contains_key(players[1]) {
        Some(Error::PlayerAlreadyInGame)
    } else if game_slot(p.games, game_id(seed, players[0], p.nonce)) is Some {
        Some(Error::PlayerAlreadyInGame)
    } else {
        None
    }
}

/// The registry after creating a game for `players`, with identifier `id`.
pub open spec fn created(before: PalletView, after: PalletView, players: Seq<u64>, id: [u8; 32], block: u64) -> bool {
    &&& after.games.len() == before.games.len() + 1
    &&& after.games.subrange(0, before.games.len() as int) == before.games
    &&& is_new_game(after.games.last(), id, players, block)
    &&& after.player_games == before.player_games.insert(players[0], id).insert(players[1], id)
    &&& after.nonce == (if before.nonce == u64::MAX { 0 } else { (before.nonce + 1) as u64 })
    &&& after.founder_key == before.founder_key
}

/// Why `sender` cannot open a game against `opponent`, if they cannot.
pub open spec fn new_game_error(
    p: PalletView,
    sender: u64,
    opponent: u64,
    sender_queued: bool,
    opponent_queued: bool,
) -> Option<Error> {
    if sender == opponent {
        Some(Error::SelfPlayNotAllowed)
    } else if sender_queued || opponent_queued {
        Some(Error::PlayerAlreadyQueued)
    } else if p.player_games.contains_key(sender) || p.player_games.contains_key(opponent) {
        Some(Error::PlayerAlreadyInGame)
    } else {
        None
    }
}

fn le_bytes_of(n: u64, out: &mut Vec<u8>)
    ensures
        final(out)@ == old(out)@ + le_bytes(n),
{
    let ghost start = out@;
    let mut i: u64 = 0;
    while i < 8
        invariant
            0 <= i <= 8,
            out@ == start + le_bytes(n).subrange(0, i as int),
        decreases 8 - i,
    {
        out.push((n >> (8 * i)) as u8);
        assert(le_bytes(n).subrange(0, i as int + 1) =~= le_bytes(n).subrange(0, i as int).push(
            (n >> (8 * i)) as u8,
        ));
        assert(out@ =~= start + le_bytes(n).subrange(0, i as int + 1));
        i = i + 1;
    }
    assert(le_bytes(n).subrange(0, 8) =~= le_bytes(n));
}

/// The identifier of a game created from `seed` by `creator` at `nonce`.
pub fn generate_game_id(seed: &[u8; 32], creator: u64, nonce: u64) -> (r: [u8; 32])
    ensures
        r == game_id(*seed, creator, nonce),
{
    let mut data: Vec<u8> = Vec::new();
    let mut i: usize = 0;
    while i < 32
        invariant
            0 <= i <= 32,
            data@ == seed@.subrange(0, i as int),
        decreases 32 - i,
    {
        data.push(seed[i]);
        assert(data@ =~= seed@.subrange(0, i as int + 1));
        i = i + 1;
    }
    assert(seed@.subrange(0, 32) =~= seed@);
    le_bytes_of(creator, &mut data);
    data.push(32u8);
    le_bytes_of(nonce, &mut data);
    assert(data@ =~= id_preimage(*seed, creator, nonce));
    blake2_256(data.as_slice())
}

/// A game of the registry has two distinct participants and a unit sequence
/// for each.
pub open spec fn game_wf(g: GameView) -> bool {
    &&& g.players.len() == 2
    &&& g.players[0] != g.players[1]
    &&& g.ninjas.len() == 2
}

/// Whether game `j` of `p` is `player`'s active game: it has the identifier
/// that `player` is registered with, and `player` takes part in it.
pub open spec fn holds_player(p: PalletView, player: u64, j: int) -> bool {
    &&& 0 <= j < p.games.len()
    &&& p.games[j].id == p.player_games[player]
    &&& p.games[j].players.contains(player)
}

/// What holds of every registry that the operations below produce: each game
/// is well formed, identifiers are unique, and each registered player's
/// identifier names a game in which that player takes part.
pub open spec fn registry_wf(p: PalletView) -> bool {
    &&& forall|j: int| 0 <= j < p.games.len() ==> #[trigger] game_wf(p.games[j])
    &&& forall|j: int, k: int|
        0 <= j < k < p.games.len() ==> #[trigger] p.games[j].id != #[trigger] p.games[k].id
    &&& forall|player: u64|
        #[trigger] p.player_games.contains_key(player) ==> exists|j: int| holds_player(p, player, j)
}

/// In a well-formed registry a registered player's active game exists, and
/// the player is one of its two participants.
pub proof fn lemma_registered_player_takes_part(p: PalletView, player: u64)
    requires
        registry_wf(p),
        p.player_games.contains_key(player),
    ensures
        active_slot(p, player) is Some,
        game_wf(p.games[active_slot(p, player)->Some_0]),
        player_index(p.games[active_slot(p, player)->Some_0].players, player) is Some,
{
    let id = p.player_games[player];
    let j0 = choose|j: int| holds_player(p, player, j);
    assert(is_first_slot(p.games, id, j0));
    let j = choose|j: int| is_first_slot(p.games, id, j);
    assert(is_first_slot(p.games, id, j));
    if j < j0 {
        assert(p.games[j].id != p.games[j0].id);
    }
    if j > j0 {
        assert(p.games[j0].id != id);
    }
    assert(game_wf(p.games[j]));
    assert(p.games[j].players.contains(player));
    let k = choose|k: int| 0 <= k < p.games[j].players.len() && p.games[j].players[k] == player;
    assert(k == 0 || k == 1);
}

/// Replacing a game by the same game in another state keeps the registry well formed.
proof fn lemma_update_keeps_wf(p: PalletView, j: int, g: GameView)
    requires
        registry_wf(p),
        0 <= j < p.games.len(),
        same_game(p.games[j], g),
    ensures
        registry_wf(PalletView { games: p.games.update(j, g), ..p }),
{
    let q = PalletView { games: p.games.update(j, g), ..p };
    assert forall|i: int| 0 <= i < q.games.len() implies #[trigger] game_wf(q.games[i]) by {
        assert(game_wf(p.games[i]));
    }
    assert forall|i: int, k: int| 0 <= i < k < q.games.len() implies #[trigger] q.games[i].id
        != #[trigger] q.games[k].id by {
        assert(p.games[i].id != p.games[k].id);
    }
    assert forall|player: u64| #[trigger] q.player_games.contains_key(player) implies exists|i: int|
        holds_player(q, player, i) by {
        let i = choose|i: int| holds_player(p, player, i);
        assert(holds_player(q, player, i));
    }
}

/// Creating a game keeps the registry well formed.
proof fn lemma_create_keeps_wf(before: PalletView, after: PalletView, players: Seq<u64>, id: [u8; 32], block: u64)
    requires
        registry_wf(before),
        players.len() == 2,
        players[0] != players[1],
        game_slot(before.games, id) is None,
        created(before, after, players, id, block),
    ensures
        registry_wf(after),
{
    let n = before.games.len() as int;
    assert forall|i: int| 0 <= i < n implies after.games[i] == before.games[i] by {
        assert(after.games.subrange(0, n)[i] == after.games[i]);
    }
    assert forall|i: int| 0 <= i < n implies before.games[i].id != id by {
        if before.games[i].id == id {
            assert forall|k: int| 0 <= k < i implies before.games[k].id != id by {
                assert(before.games[k].id != before.games[i].id);
            }
            assert(is_first_slot(before.games, id, i));
        }
    }
    assert forall|i: int| 0 <= i < after.games.len() implies #[trigger] game_wf(after.games[i]) by {
        if i < n {
            assert(game_wf(before.games[i]));
        }
    }
    assert forall|i: int, k: int| 0 <= i < k < after.games.len() implies #[trigger] after.games[i].id
        != #[trigger] after.games[k].id by {
        if k < n {
            assert(before.games[i].id != before.games[k].id);
        }
    }
    assert forall|player: u64| #[trigger] after.player_games.contains_key(player) implies exists|i: int|
        holds_player(after, player, i) by {
        if player == players[0] || player == players[1] {
            assert(after.games[n].players == players);
            assert(players[0] == players[0]);
            if player == players[0] {
                assert(players[0] == after.games[n].players[0]);
            } else {
                assert(players[1] == after.games[n].players[1]);
            }
            assert(holds_player(after, player, n));
        } else {
            assert(before.player_games.contains_key(player));
            let i = choose|i: int| holds_player(before, player, i);
            assert(holds_player(after, player, i));
        }
    }
}

/// In every registry that the operations produce, a registered player who
/// still has to submit a loadout while their game prepares has a valid
/// loadout accepted.
pub proof fn lemma_registry_valid_loadout_accepted(
    p: PalletView,
    player: u64,
    setup: [u8; 14],
    salt: [u8; 32],
    block: u64,
)
    requires
        registry_wf(p),
        p.player_games.contains_key(player),
        p.games[active_slot(p, player)->Some_0].state is Prepare,
        p.games[active_slot(p, player)->Some_0].state->Prepare_0.contains(player),
        loadout_valid(setup),
    ensures
        on_active_game(p, player, |g: GameView| prepare_spec(g, player, setup, salt, block)) is Ok,
{
    lemma_registered_player_takes_part(p, player);
    lemma_valid_loadout_accepted(p.games[active_slot(p, player)->Some_0], player, setup, salt, block);
}

/// In every registry that the operations produce, a reveal is accepted only
/// where the salt and weapon reproduce the commitment of the player's unit.
pub proof fn lemma_registry_reveal_needs_commitment(
    p: PalletView,
    player: u64,
    ninja: u8,
    weapon: Weapon,
    salt: [u8; 32],
    block: u64,
)
    requires
        registry_wf(p),
        on_active_game(p, player, |g: GameView| reveal_spec(g, player, ninja, weapon, salt, block)) is Ok,
    ensures
        ({
            let g = p.games[active_slot(p, player)->Some_0];
            let i = player_index(g.players, player)->Some_0;
            &&& player_index(g.players, player) is Some
            &&& g.ninjas[i][ninja as int] is Stealth
            &&& verifies(g.ninjas[i][ninja as int]->Stealth_0, salt@, ninja, weapon)
        }),
{
    let g = p.games[active_slot(p, player)->Some_0];
    lemma_reveal_needs_commitment(g, player, ninja, weapon, salt, block);
}

/// In every registry that the operations produce, an accepted move hands the
/// turn to the other participant when the phase is back to `Move`, and keeps
/// the turn holder while a reveal or choose phase follows.
pub proof fn lemma_registry_move_turn(
    p: PalletView,
    player: u64,
    position: [u8; 2],
    direction: Direction,
    block: u64,
)
    requires
        registry_wf(p),
        on_active_game(p, player, |g: GameView| move_spec(g, player, position, direction, block)) is Ok,
    ensures
        ({
            let j = active_slot(p, player)->Some_0;
            let g = p.games[j];
            let g2 = on_active_game(p, player, |g: GameView| move_spec(g, player, position, direction, block))->Ok_0.games[j];
            &&& g.state == GameStateView::Running(player)
            &&& g2.phase is Move ==> g2.state == GameStateView::Running(g.players[other(player_index(g.players, player)->Some_0)])
            &&& !(g2.phase is Move) ==> g2.state == g.state
        }),
{
    let j = active_slot(p, player)->Some_0;
    lemma_move_turn(p.games[j], player, position, direction, block);
}

/// A player with an active game can neither open a second game nor be
/// matched into one: every such request fails, with `PlayerAlreadyInGame`
/// where the request is otherwise well-formed.
pub proof fn lemma_one_active_game_per_player(
    p: PalletView,
    sender: u64,
    opponent: u64,
    sender_queued: bool,
    opponent_queued: bool,
    players: Seq<u64>,
    seed: [u8; 32],
)
    requires
        p.player_games.contains_key(sender) || p.player_games.contains_key(opponent),
    ensures
        new_game_error(p, sender, opponent, sender_queued, opponent_queued) is Some,
        sender != opponent && !sender_queued && !opponent_queued ==> new_game_error(
            p,
            sender,
            opponent,
            sender_queued,
            opponent_queued,
        ) == Some(Error::PlayerAlreadyInGame),
        players == seq![sender, opponent] ==> create_error(p, players, seed) is Some,
        players == seq![sender, opponent] && sender != opponent ==> create_error(p, players, seed)
            == Some(Error::PlayerAlreadyInGame),
{
}

impl Pallet {
    /// The commitment to weapon `choice` of the unit in slot `position`
    /// under `salt`; the slot enters the hash as its low byte.
    pub fn hash_choice(salt: [u8; 32], position: usize, choice: Weapon) -> (r: [u8; 32])
        ensures
            r == commitment(salt@, position as u8, choice),
    {
        commit(&salt, position as u8, &choice)
    }

    /// An empty registry; `founder_key` may empty the matchmaking queues.
    pub fn new(founder_key: Option<u64>) -> (r: Pallet)
        ensures
            registry_wf(r@),
            r@.games.len() == 0,
            r@.player_games.is_empty(),
            r@.nonce == 0,
            r@.founder_key == founder_key,
    {
        let r = Pallet { games: Vec::new(), player_games: HashMap::new(), nonce: 0, founder_key };
        assert(r@.player_games =~= Map::empty());
        r
    }

    /// The game with identifier `id`.
    pub fn games(&self, id: &[u8; 32]) -> (r: Option<&Game>)
        ensures
            match game_slot(self@.games, *id) {
                Some(j) => r is Some && r->Some_0@ == self@.games[j],
                None => r is None,
            },
    {
        match self.slot_of(id) {
            Some(j) => {
                proof {
                    let k = choose|k: int| is_first_slot(self@.games, *id, k);
                    assert(is_first_slot(self@.games, *id, k));
                    assert(k == j);
                    assert(self@.games[k] == self.games@[k]@);
                }
                Some(&self.games[j])
            },
            None => None,
        }
    }

    /// The identifier of `player`'s active game.
    pub fn player_game(&self, player: u64) -> (r: Option<[u8; 32]>)
        ensures
            r == (if self@.player_games.contains_key(player) {
                Some(self@.player_games[player])
            } else {
                None
            }),
    {
        match self.player_games.get(&player) {
            Some(id) => Some(*id),
            None => None,
        }
    }

    /// The nonce that the next identifier uses.
    pub fn nonce(&self) -> (r: u64)
        ensures
            r == self@.nonce,
    {
        self.nonce
    }

    fn slot_of(&self, id: &[u8; 32]) -> (r: Option<usize>)
        ensures
            match game_slot(self@.games, *id) {
                Some(j) => r is Some && r->Some_0 as int == j,
                None => r is None,
            },
    {
        let mut i: usize = 0;
        while i < self.games.len()
            invariant
                0 <= i <= self.games@.len(),
                forall|k: int| 0 <= k < i ==> #[trigger] self@.games[k].id != *id,
            decreases self.games@.len() - i,
        {
            if bytes_equal(&self.games[i].id, id) {
                proof {
                    assert(self.games[i as int].id =~= *id);
                    assert(is_first_slot(self@.games, *id, i as int));
                    let j = choose|j: int| is_first_slot(self@.games, *id, j);
                    if j < i {
                        assert(self@.games[j].id != *id);
                    }
                    if j > i {
                        assert(self@.games[i as int].id != *id);
                    }
                }
                return Some(i);
            }
            i = i + 1;
        }
        proof {
            if exists|j: int| is_first_slot(self@.games, *id, j) {
                let j = choose|j: int| is_first_slot(self@.games, *id, j);
                assert(self@.games[j].id != *id);
            }
        }
        None
    }

    fn take_active(&mut self, player: u64) -> (r: Option<(usize, Game)>)
        ensures
            match active_slot(old(self)@, player) {
                None => r is None && *final(self) == *old(self),
                Some(j) => {
                    &&& r is Some
                    &&& r->Some_0.0 as int == j
                    &&& r->Some_0.1@ == old(self)@.games[j]
                    &&& final(self).games@ == old(self).games@.remove(j)
                    &&& final(self).player_games == old(self).player_games
                    &&& final(self).nonce == old(self).nonce
                    &&& final(self).founder_key == old(self).founder_key
                },
            },
    {
        let id = match self.player_games.get(&player) {
            Some(id) => *id,
            None => {
                return None;
            },
        };
        let j = match self.slot_of(&id) {
            Some(j) => j,
            None => {
                return None;
            },
        };
        let g = self.games.remove(j);
        Some((j, g))
    }

    fn restore(&mut self, j: usize, g: Game, Ghost(before): Ghost<Seq<Game>>)
        requires
            0 <= j < before.len(),
            old(self).games@ == before.remove(j as int),
        ensures
            final(self).games@ == before.update(j as int, g),
            final(self).player_games == old(self).player_games,
            final(self).nonce == old(self).nonce,
            final(self).founder_key == old(self).founder_key,
    {
        self.games.insert(j, g);
        assert(self.games@ =~= before.update(j as int, g));
    }

    /// Creates a game for a match of two players, unless one of them already
    /// has an active game. The identifier is drawn from `seed`, the first
    /// player and the nonce, which then advances.
    pub fn create_game(&mut self, players: Vec<u64>, seed: [u8; 32], block: u64) -> (r: Result<[u8; 32], Error>)
        requires
            registry_wf(old(self)@),
        ensures
            registry_wf(final(self)@),
            match create_error(old(self)@, players@, seed) {
                Some(e) => r == Err::<[u8; 32], Error>(e) && final(self)@ == old(self)@,
                None => {
                    &&& r == Ok::<[u8; 32], Error>(game_id(seed, players@[0], old(self)@.nonce))
                    &&& created(old(self)@, final(self)@, players@, r->Ok_0, block)
                },
            },
    {
        if players.len() != 2 || players[0] == players[1] {
            return Err(Error::SelfPlayNotAllowed);
        }
        let first = players[0];
        let second = players[1];
        if self.player_games.contains_key(&first) || self.player_games.contains_key(&second) {
            return Err(Error::PlayerAlreadyInGame);
        }
        let id = generate_game_id(&seed, first, self.nonce);
        if self.slot_of(&id).is_some() {
            return Err(Error::PlayerAlreadyInGame);
        }
        self.nonce = if self.nonce == u64::MAX {
            0
        } else {
            self.nonce + 1
        };
        let pending = players.clone();
        let game = Game::initialize(id, block, players, GameState::Initiate(pending));
        self.games.push(game);
        self.player_games.insert(first, id);
        self.player_games.insert(second, id);
        assert(self@.games.subrange(0, old(self)@.games.len() as int) =~= old(self)@.games);
        proof {
            lemma_create_keeps_wf(old(self)@, self@, players@, id, block);
        }
        Ok(id)
    }

    /// `sender` opens a game against `opponent`. Neither may be waiting in the
    /// matchmaking queue (`sender_queued`, `opponent_queued`) or have an
    /// active game.
    pub fn new_game(
        &mut self,
        sender: u64,
        opponent: u64,
        sender_queued: bool,
        opponent_queued: bool,
        seed: [u8; 32],
        block: u64,
    ) -> (r: Result<[u8; 32], Error>)
        requires
            registry_wf(old(self)@),
        ensures
            registry_wf(final(self)@),
            match new_game_error(old(self)@, sender, opponent, sender_queued, opponent_queued) {
                Some(e) => r == Err::<[u8; 32], Error>(e) && final(self)@ == old(self)@,
                None => match create_error(old(self)@, seq![sender, opponent], seed) {
                    Some(e) => r == Err::<[u8; 32], Error>(e) && final(self)@ == old(self)@,
                    None => {
                        &&& r == Ok::<[u8; 32], Error>(game_id(seed, sender, old(self)@.nonce))
                        &&& created(old(self)@, final(self)@, seq![sender, opponent], r->Ok_0, block)
                    },
                },
            },
    {
        if sender == opponent {
            return Err(Error::SelfPlayNotAllowed);
        }
        if sender_queued || opponent_queued {
            return Err(Error::PlayerAlreadyQueued);
        }
        if self.player_games.contains_key(&sender) || self.player_games.contains_key(&opponent) {
            return Err(Error::PlayerAlreadyInGame);
        }
        let mut players: Vec<u64> = Vec::new();
        players.push(sender);
        players.push(opponent);
        assert(players@ =~= seq![sender, opponent]);
        self.create_game(players, seed, block)
    }

    /// Whether `sender` may join the matchmaking queue: not while they have
    /// an active game. On success, the bracket to queue them into.
    pub fn queue(&self, sender: u64) -> (r: Result<u8, Error>)
        ensures
            r == (if self@.player_games.contains_key(sender) {
                Err::<u8, Error>(Error::PlayerAlreadyInGame)
            } else {
                Ok::<u8, Error>(DEFAULT_BRACKET)
            }),
    {
        if self.player_games.contains_key(&sender) {
            Err(Error::PlayerAlreadyInGame)
        } else {
            Ok(DEFAULT_BRACKET)
        }
    }

    /// Whether `sender` may empty the matchmaking queues: only the founder.
    pub fn empty_queue(&self, sender: u64) -> (r: Result<(), Error>)
        ensures
            r == (if self@.founder_key == Some(sender) {
                Ok::<(), Error>(())
            } else {
                Err::<(), Error>(Error::NotAuthorized)
            }),
    {
        match self.founder_key {
            Some(f) => if f == sender {
                Ok(())
            } else {
                Err(Error::NotAuthorized)
            },
            None => Err(Error::NotAuthorized),
        }
    }

    /// One round of the per-block match loop: `players` is what the
    /// matchmaker handed out (empty when nobody could be matched). A match
    /// becomes a game where `create_game` allows it. Returns whether to ask
    /// the matchmaker again: not after an empty answer, and not once
    /// `MAX_GAMES_PER_BLOCK` rounds have run.
    pub fn match_round(&mut self, round: u8, players: Vec<u64>, seed: [u8; 32], block: u64) -> (more: bool)
        requires
            registry_wf(old(self)@),
        ensures
            registry_wf(final(self)@),
            players@.len() == 0 ==> !more && final(self)@ == old(self)@,
            players@.len() > 0 ==> {
                &&& more == (round as int + 1 < MAX_GAMES_PER_BLOCK as int)
                &&& match create_error(old(self)@, players@, seed) {
                    Some(_) => final(self)@ == old(self)@,
                    None => created(
                        old(self)@,
                        final(self)@,
                        players@,
                        game_id(seed, players@[0], old(self)@.nonce),
                        block,
                    ),
                }
            },
    {
        if players.len() == 0 {
            return false;
        }
        let _ = self.create_game(players, seed, block);
        (round as u16) + 1 < MAX_GAMES_PER_BLOCK as u16
    }

    /// `player` acknowledges their active game.
    pub fn initiate(&mut self, player: u64, block: u64) -> (r: Result<(), Error>)
        requires
            registry_wf(old(self)@),
        ensures
            registry_wf(final(self)@),
            action_matches(
                r,
                old(self)@,
                final(self)@,
                on_active_game(old(self)@, player, |g: GameView| initiate_spec(g, player, block)),
            ),
    {
        let ghost before = self.games@;
        let (j, mut g) = match self.take_active(player) {
            Some(t) => t,
            None => {
                return Err(Error::GameNotFound);
            },
        };
        let ghost start = g@;
        let r = g.initiate(player, block);
        proof {
            assert(game_wf(old(self)@.games[j as int]));
            lemma_actions_keep_game(start, player, arbitrary(), arbitrary(), Direction::Stay, 0u8, Weapon::Unarmed, arbitrary(), block);
        }
        self.restore(j, g, Ghost(before));
        assert(self@.games =~= old(self)@.games.update(j as int, g@));
        if r.is_err() {
            assert(self@.games =~= old(self)@.games);
        } else {
            proof {
                lemma_update_keeps_wf(old(self)@, j as int, g@);
            }
        }
        r
    }

    /// `player` submits their loadout for their active game.
    pub fn prepare(&mut self, player: u64, setup: [u8; 14], salt: [u8; 32], block: u64) -> (r: Result<(), Error>)
        requires
            registry_wf(old(self)@),
        ensures
            registry_wf(final(self)@),
            action_matches(
                r,
                old(self)@,
                final(self)@,
                on_active_game(old(self)@, player, |g: GameView| prepare_spec(g, player, setup, salt, block)),
            ),
    {
        let ghost before = self.games@;
        let (j, mut g) = match self.take_active(player) {
            Some(t) => t,
            None => {
                return Err(Error::GameNotFound);
            },
        };
        let ghost start = g@;
        let r = g.prepare(player, setup, salt, block);
        proof {
            assert(game_wf(old(self)@.games[j as int]));
            lemma_actions_keep_game(start, player, setup, arbitrary(), Direction::Stay, 0u8, Weapon::Unarmed, salt, block);
        }
        self.restore(j, g, Ghost(before));
        assert(self@.games =~= old(self)@.games.update(j as int, g@));
        if r.is_err() {
            assert(self@.games =~= old(self)@.games);
        } else {
            proof {
                lemma_update_keeps_wf(old(self)@, j as int, g@);
            }
        }
        r
    }

    /// `player` moves a unit in their active game.
    pub fn play_move(&mut self, player: u64, position: [u8; 2], direction: Direction, block: u64) -> (r: Result<(), Error>)
        requires
            registry_wf(old(self)@),
        ensures
            registry_wf(final(self)@),
            action_matches(
                r,
                old(self)@,
                final(self)@,
                on_active_game(old(self)@, player, |g: GameView| move_spec(g, player, position, direction, block)),
            ),
    {
        let ghost before = self.games@;
        let (j, mut g) = match self.take_active(player) {
            Some(t) => t,
            None => {
                return Err(Error::GameNotFound);
            },
        };
        let ghost start = g@;
        let r = g.play_move(player, position, direction, block);
        proof {
            assert(game_wf(old(self)@.games[j as int]));
            lemma_actions_keep_game(start, player, arbitrary(), position, direction, 0u8, Weapon::Unarmed, arbitrary(), block);
        }
        self.restore(j, g, Ghost(before));
        assert(self@.games =~= old(self)@.games.update(j as int, g@));
        if r.is_err() {
            assert(self@.games =~= old(self)@.games);
        } else {
            proof {
                lemma_update_keeps_wf(old(self)@, j as int, g@);
            }
        }
        r
    }

    /// `player` reveals the weapon of their contested unit in their active game.
    pub fn reveal_position(&mut self, player: u64, ninja: u8, weapon: Weapon, salt: [u8; 32], block: u64) -> (r: Result<(), Error>)
        requires
            registry_wf(old(self)@),
        ensures
            registry_wf(final(self)@),
            action_matches(
                r,
                old(self)@,
                final(self)@,
                on_active_game(old(self)@, player, |g: GameView| reveal_spec(g, player, ninja, weapon, salt, block)),
            ),
    {
        let ghost before = self.games@;
        let (j, mut g) = match self.take_active(player) {
            Some(t) => t,
            None => {
                return Err(Error::GameNotFound);
            },
        };
        let ghost start = g@;
        let r = g.reveal_position(player, ninja, weapon, salt, block);
        proof {
            assert(game_wf(old(self)@.games[j as int]));
            lemma_actions_keep_game(start, player, arbitrary(), arbitrary(), Direction::Stay, ninja, weapon, salt, block);
        }
        self.restore(j, g, Ghost(before));
        assert(self@.games =~= old(self)@.games.update(j as int, g@));
        if r.is_err() {
            assert(self@.games =~= old(self)@.games);
        } else {
            proof {
                lemma_update_keeps_wf(old(self)@, j as int, g@);
            }
        }
        r
    }

    /// `player` commits a new weapon for their contested unit in their active game.
    pub fn choose_weapon(&mut self, player: u64, ninja: u8, weapon: Weapon, salt: [u8; 32], block: u64) -> (r: Result<(), Error>)
        requires
            registry_wf(old(self)@),
        ensures
            registry_wf(final(self)@),
            action_matches(
                r,
                old(self)@,
                final(self)@,
                on_active_game(old(self)@, player, |g: GameView| choose_spec(g, player, ninja, weapon, salt, block)),
            ),
    {
        let ghost before = self.games@;
        let (j, mut g) = match self.take_active(player) {
            Some(t) => t,
            None => {
                return Err(Error::GameNotFound);
            },
        };
        let ghost start = g@;
        let r = g.choose_weapon(player, ninja, weapon, salt, block);
        proof {
            assert(game_wf(old(self)@.games[j as int]));
            lemma_actions_keep_game(start, player, arbitrary(), arbitrary(), Direction::Stay, ninja, weapon, salt, block);
        }
        self.restore(j, g, Ghost(before));
        assert(self@.games =~= old(self)@.games.update(j as int, g@));
        if r.is_err() {
            assert(self@.games =~= old(self)@.games);
        } else {
            proof {
                lemma_update_keeps_wf(old(self)@, j as int, g@);
            }
        }
        r
    }
}

} // verus!
