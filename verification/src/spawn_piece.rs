//! Putting a piece on the board.

use vstd::prelude::*;
use crate::common::Position;
use crate::game_state::{with_square, GameState};
use crate::piece::{Piece, PieceColor, PieceType};

verus! {

/// Puts a new piece on a square, in place of what stood there.
pub fn spawn_piece(
    game_state: &mut GameState,
    position: Position,
    piece_color: PieceColor,
    piece_type: PieceType,
)
    requires
        position.valid(),
    ensures
        final(game_state).board == with_square(
            old(game_state).board,
            position.0 as int,
            position.1 as int,
            Some(Piece { piece_color, piece_type, x: position.0, y: position.1 }),
        ),
        final(game_state).now_moves == old(game_state).now_moves,
        final(game_state).player_moves == old(game_state).player_moves,
        old(game_state).wf() ==> final(game_state).wf(),
{
    let piece = Piece { piece_color, piece_type, x: position.0, y: position.1 };
    game_state.board[position.0 as usize][position.1 as usize] = Some(piece);
    assert(game_state.board =~~= with_square(
        old(game_state).board,
        position.0 as int,
        position.1 as int,
        Some(piece),
    ));
}

} // verus!
