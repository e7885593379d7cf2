//! The human player's clicks: the first click picks a square, the second
//! asks for the move from that square to the one clicked.

use vstd::prelude::*;
use crate::common::{MousePosition, Position, SelectedSquare};
use crate::game_state::GameState;
use crate::turn::{applied, AppliedMove};

verus! {

/// What there is to show after the clicks of one tick, in this order: the
/// highlights on the board are taken away, the picked square is
/// highlighted, and the move that was made is shown.
#[derive(Debug, Clone, Copy, PartialEq, Eq)]
pub struct ClickOutcome {
    pub clear_highlights: bool,
    pub highlight: Option<Position>,
    pub moved: Option<AppliedMove>,
}

/// The move that a left click asks for: from the picked square to the
/// square under the pointer, where both are there.
pub open spec fn requested(selected: SelectedSquare, mouse: MousePosition) -> Option<
    (Position, Position),
> {
    match (selected.position, mouse.position) {
        (Some(from), Some(to)) => Some((from, to)),
        _ => None,
    }
}

/// Whether a left click makes the move it asks for: the turn is the
/// player's and the move is among those of the color to move.
pub open spec fn granted(state: GameState, selected: SelectedSquare, mouse: MousePosition) -> bool {
    requested(selected, mouse) matches Some(m) && state.player_moves && state.allows(m.0, m.1)
}

/// Handles the clicks of one tick. A left click over the board picks the
/// square under the pointer where none is picked, and otherwise asks for
/// the move from the picked square to it and drops the pick; the move is
/// made where `player_move` allows it. A left click off the board and any
/// right click drop the pick.
pub fn mouse_pressed_system(
    left: bool,
    right: bool,
    mouse_position: &MousePosition,
    selected_square: &mut SelectedSquare,
    game_state: &mut GameState,
    number_of_players: i32,
) -> (r: ClickOutcome)
    requires
        old(game_state).wf(),
    ensures
        final(game_state).wf(),
        final(selected_square).position == if right {
            None
        } else if left && old(selected_square).position is None {
            mouse_position.position
        } else if left {
            None
        } else {
            old(selected_square).position
        },
        r.clear_highlights == (right || (left && !(mouse_position.position is Some && old(
            selected_square,
        ).position is None))),
        r.highlight == if left && old(selected_square).position is None {
            mouse_position.position
        } else {
            None
        },
        left && granted(*old(game_state), *old(selected_square), *mouse_position) ==> {
            let m = requested(*old(selected_square), *mouse_position).unwrap();
            &&& r.moved == Some(applied(old(game_state).board, m.0, m.1))
            &&& *final(game_state) == old(game_state).played(m.0, m.1, number_of_players as int)
        },
        !(left && granted(*old(game_state), *old(selected_square), *mouse_position)) ==> r.moved
            is None && *final(game_state) == *old(game_state),
{
    let mut outcome = ClickOutcome { clear_highlights: false, highlight: None, moved: None };
    if left {
        if let Some(position) = mouse_position.position {
            if let Some(selected_square_position) = selected_square.position {
                outcome.clear_highlights = true;
                selected_square.position = None;
                outcome.moved =
                game_state.player_move(number_of_players, selected_square_position, position);
            } else {
                selected_square.position = mouse_position.position;
                outcome.highlight = Some(position);
            }
        } else {
            selected_square.position = None;
            outcome.clear_highlights = true;
        }
    }
    if right {
        selected_square.position = None;
        outcome.clear_highlights = true;
    }
    outcome
}

} // verus!
