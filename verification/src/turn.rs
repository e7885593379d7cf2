//! Moves made for good: by the human player, who may ask for any move and
//! is ignored where it is not allowed, and by the computer.

use vstd::prelude::*;
use crate::common::{Move, Position};
use crate::game_state::{all_of_mover, can_move, rook_relocation, GameState};
use crate::piece::{Board, PieceType};

verus! {

/// What there is to show of a move that was made: the move, whether the
/// piece arrived as a queen in place of a pawn, and the move of the rook
/// that went along with a castling king.
#[derive(Debug, Clone, Copy, PartialEq, Eq)]
pub struct AppliedMove {
    pub from: Position,
    pub to: Position,
    pub promoted: bool,
    pub rook: Option<Move>,
}

/// What there is to show of the move from `from` to `to` on `board`.
pub open spec fn applied(board: Board, from: Position, to: Position) -> AppliedMove {
    let piece = board[from.0 as int][from.1 as int].unwrap();
    AppliedMove {
        from,
        to,
        promoted: piece.piece_type == PieceType::Pawn && (to.1 == 0 || to.1 == 7),
        rook: rook_relocation(piece, from, to),
    }
}

impl GameState {
    /// The state after a move made for good: the piece has moved, the turn
    /// has passed to the other color, and in a game of one human player
    /// the turn has changed hands between player and computer.
    pub open spec fn played(self, from: Position, to: Position, number_of_players: int) -> GameState {
        GameState {
            player_moves: if number_of_players == 1 {
                !self.player_moves
            } else {
                self.player_moves
            },
            ..self.after_move(from, to, true)
        }
    }

    /// Whether the list of moves of the color to move holds the move from
    /// `from` to `to`.
    pub open spec fn allows(self, from: Position, to: Position) -> bool {
        self.legal_moves().contains((from, to))
    }

    /// Tells whether the color to move may move from `from` to `to`.
    pub fn is_allowed(&self, from: Position, to: Position) -> (r: bool)
        requires
            self.wf(),
        ensures
            r == self.allows(from, to),
            r ==> can_move(self.board, from, to),
    {
        let moves = self.generate_legal_moves();
        let mut i: usize = 0;
        while i < moves.len()
            invariant
                i <= moves.len(),
                self.wf(),
                moves@ == self.legal_moves(),
                all_of_mover(*self, moves@),
                forall|k: int| 0 <= k < i ==> moves@[k] != (from, to),
            decreases moves.len() - i,
        {
            let (a, b) = moves[i];
            if a == from && b == to {
                proof {
                    assert(moves@[i as int] == (from, to));
                    self.lemma_move_of_mover_can_move(moves@[i as int]);
                }
                return true;
            }
            i += 1;
        }
        false
    }

    fn move_piece_for_real(&mut self, number_of_players: i32, from: Position, to: Position) -> (r:
        AppliedMove)
        requires
            can_move(old(self).board, from, to),
        ensures
            r == applied(old(self).board, from, to),
            *final(self) == old(self).played(from, to, number_of_players as int),
            old(self).wf() ==> final(self).wf(),
    {
        let piece_type = self.board[from.0 as usize][from.1 as usize].unwrap().piece_type;
        let promoted = piece_type == PieceType::Pawn && (to.1 == 0 || to.1 == 7);
        let mut rook: Option<Move> = None;
        if piece_type == PieceType::King {
            if from.0 + 2 == to.0 {
                rook = Some((Position(7, from.1), Position(5, to.1)));
            } else if from.0 - 2 == to.0 {
                rook = Some((Position(0, from.1), Position(3, to.1)));
            }
        }
        self.move_piece(from, to, true);
        if number_of_players == 1 {
            self.player_moves = !self.player_moves;
        }
        AppliedMove { from, to, promoted, rook }
    }

    /// Makes the move that the human player asks for, where the turn is
    /// the player's and the move is among those of the color to move.
    /// Otherwise the request is dropped and the state stays as it is.
    pub fn player_move(&mut self, number_of_players: i32, from: Position, to: Position) -> (r:
        Option<AppliedMove>)
        requires
            old(self).wf(),
        ensures
            final(self).wf(),
            old(self).player_moves && old(self).allows(from, to) ==> r == Some(
                applied(old(self).board, from, to),
            ) && *final(self) == old(self).played(from, to, number_of_players as int),
            !(old(self).player_moves && old(self).allows(from, to)) ==> r is None && *final(self)
                == *old(self),
    {
        if !self.player_moves || !self.is_allowed(from, to) {
            return None;
        }
        Some(self.move_piece_for_real(number_of_players, from, to))
    }

    /// Makes the move that the computer has chosen. The turn must be the
    /// computer's and the move among those of the color to move.
    pub fn computer_move(&mut self, number_of_players: i32, from: Position, to: Position) -> (r:
        AppliedMove)
        requires
            old(self).wf(),
            !old(self).player_moves,
            old(self).allows(from, to),
        ensures
            final(self).wf(),
            r == applied(old(self).board, from, to),
            *final(self) == old(self).played(from, to, number_of_players as int),
    {
        proof {
            let i = choose|i: int|
                0 <= i < self.legal_moves().len() && self.legal_moves()[i] == (from, to);
            self.lemma_legal_moves_of_mover();
            self.lemma_move_of_mover_can_move(self.legal_moves()[i]);
        }
        self.move_piece_for_real(number_of_players, from, to)
    }
}

} // verus!
