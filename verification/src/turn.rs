//! The turn-state machine of the dungeon game: waiting for input, the
//! player's turn, then the monsters' turn, and back to waiting.

use vstd::prelude::*;

verus! {

/// Whose turn the game is in.
#[derive(Debug, Clone, Copy, PartialEq, Eq, Structural, Hash)]
pub enum TurnState {
    AwaitingInput,
    PlayerTurn,
    MonserTurn,
}

/// The state a finished turn hands over to: input ends the wait elsewhere,
/// the player's turn is followed by the monsters', and the monsters' turn
/// returns to waiting for input.
pub fn end_turn(turn_state: &TurnState) -> (next: TurnState)
    ensures
        *turn_state == TurnState::AwaitingInput ==> next == TurnState::AwaitingInput,
        *turn_state == TurnState::PlayerTurn ==> next == TurnState::MonserTurn,
        *turn_state == TurnState::MonserTurn ==> next == TurnState::AwaitingInput,
{
    match turn_state {
        TurnState::AwaitingInput => TurnState::AwaitingInput,
        TurnState::PlayerTurn => TurnState::MonserTurn,
        TurnState::MonserTurn => TurnState::AwaitingInput,
    }
}

} // verus!
