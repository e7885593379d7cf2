//! The pieces of both sides on their starting squares.

use vstd::prelude::*;
use crate::common::{on_board, Position};
use crate::game_state::GameState;
use crate::piece::{Piece, PieceColor, PieceType};
use crate::spawn_piece::spawn_piece;

verus! {

/// The piece types of the first and last rank, by file.
pub open spec fn officer_of_file(x: int) -> PieceType {
    if x == 0 || x == 7 {
        PieceType::Rook
    } else if x == 1 || x == 6 {
        PieceType::Knight
    } else if x == 2 || x == 5 {
        PieceType::Bishop
    } else if x == 3 {
        PieceType::Queen
    } else {
        PieceType::King
    }
}

/// What stands on a square when the game starts: White's officers on rank
/// 0 and pawns on rank 1, Black's pawns on rank 6 and officers on rank 7.
pub open spec fn starting_square(x: int, y: int) -> Option<Piece> {
    if y == 0 {
        Some(
            Piece {
                piece_color: PieceColor::White,
                piece_type: officer_of_file(x),
                x: x as i8,
                y: y as i8,
            },
        )
    } else if y == 1 {
        Some(
            Piece {
                piece_color: PieceColor::White,
                piece_type: PieceType::Pawn,
                x: x as i8,
                y: y as i8,
            },
        )
    } else if y == 6 {
        Some(
            Piece {
                piece_color: PieceColor::Black,
                piece_type: PieceType::Pawn,
                x: x as i8,
                y: y as i8,
            },
        )
    } else if y == 7 {
        Some(
            Piece {
                piece_color: PieceColor::Black,
                piece_type: officer_of_file(x),
                x: x as i8,
                y: y as i8,
            },
        )
    } else {
        None
    }
}

fn officer(x: i8) -> (r: PieceType)
    requires
        0 <= x < 8,
    ensures
        r == officer_of_file(x as int),
{
    if x == 0 || x == 7 {
        PieceType::Rook
    } else if x == 1 || x == 6 {
        PieceType::Knight
    } else if x == 2 || x == 5 {
        PieceType::Bishop
    } else if x == 3 {
        PieceType::Queen
    } else {
        PieceType::King
    }
}

/// Sets up the pieces of both sides on their starting squares. The four
/// ranks between them stay as they are.
pub fn create_pieces(game_state: &mut GameState)
    ensures
        forall|x: int, y: int|
            on_board(x, y) ==> #[trigger] final(game_state).board[x][y] == if y == 0 || y == 1 || y
                == 6 || y == 7 {
                starting_square(x, y)
            } else {
                old(game_state).board[x][y]
            },
        final(game_state).now_moves == old(game_state).now_moves,
        final(game_state).player_moves == old(game_state).player_moves,
        old(game_state).wf() ==> final(game_state).wf(),
{
    let mut i: i8 = 0;
    while i < 8
        invariant
            0 <= i <= 8,
            forall|x: int, y: int|
                on_board(x, y) ==> #[trigger] game_state.board[x][y] == if x < i && (y == 0 || y
                    == 1 || y == 6 || y == 7) {
                    starting_square(x, y)
                } else {
                    old(game_state).board[x][y]
                },
            game_state.now_moves == old(game_state).now_moves,
            game_state.player_moves == old(game_state).player_moves,
        decreases 8 - i,
    {
        spawn_piece(game_state, Position(i, 0), PieceColor::White, officer(i));
        spawn_piece(game_state, Position(i, 1), PieceColor::White, PieceType::Pawn);
        spawn_piece(game_state, Position(i, 6), PieceColor::Black, PieceType::Pawn);
        spawn_piece(game_state, Position(i, 7), PieceColor::Black, officer(i));
        i += 1;
    }
}

} // verus!
