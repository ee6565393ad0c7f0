use vstd::prelude::*;

verus! {

/// Why an action was rejected. A rejected action changes nothing.
#[derive(Debug, Clone, Copy, PartialEq, Eq, Structural)]
pub enum Error {
    /// A game would not have two distinct players: a player tried to open a
    /// game against themself, or a match does not name two distinct players.
    SelfPlayNotAllowed,
    /// A player already has an active game; creation fails closed, also where
    /// the identifier drawn for the new game already names a game.
    PlayerAlreadyInGame,
    /// A player is already waiting in the matchmaking queue.
    PlayerAlreadyQueued,
    /// The player has no active game, or the game does not exist, or the
    /// player does not take part in it.
    GameNotFound,
    /// The game's lifecycle state does not accept this action.
    WrongLifecycleState,
    /// The game's turn phase does not accept this action.
    WrongPhaseState,
    /// Another player holds the turn.
    NotYourTurn,
    /// A unit index or board position is out of range.
    OutOfRangeIndex,
    /// A loadout does not assign each of the fourteen slot codes exactly once.
    InvalidLoadout,
    /// A revealed weapon and salt do not reproduce the stored commitment.
    CommitmentMismatch,
    /// The move leaves the board, starts from a cell without one of the
    /// mover's units, or ends on one of them; or the unit named is not the
    /// player's unit in the contested cell, or is in a state that does not
    /// allow the action.
    IllegalMove,
    /// In a single round of rock, paper, scissors: the player already chose.
    AlreadySubmitted,
    /// The caller is not allowed to perform a privileged action.
    NotAuthorized,
}

} // verus!
