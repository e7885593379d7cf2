//! What holds of the static evaluation of every board.

use vstd::prelude::*;
use crate::common::on_board;
use crate::game_state::{
    board_sum, endgame, file_sum, king_at, king_present, officers, one_if, one_if_officer, queens,
    static_score, valid_board, value_in,
};
use crate::piece::{Board, Piece, PieceColor, PieceType};

verus! {

/// The piece of the other color on the square that lies as far from the
/// one edge as the square of `piece` lies from the other.
pub open spec fn mirrored_piece(piece: Piece) -> Piece {
    Piece {
        piece_color: piece.piece_color.opponent(),
        piece_type: piece.piece_type,
        x: piece.x,
        y: (7 - piece.y) as i8,
    }
}

/// What stands on a square of the mirror, given what stands on the square
/// it mirrors.
pub open spec fn mirrored_square(square: Option<Piece>) -> Option<Piece> {
    match square {
        Some(piece) => Some(mirrored_piece(piece)),
        None => None,
    }
}

/// Whether `mirror` is `board` with the colors swapped and the ranks
/// turned over, so that each side sees what the other saw.
pub open spec fn is_mirror(board: Board, mirror: Board) -> bool {
    forall|x: int, y: int|
        on_board(x, y) ==> #[trigger] mirror[x][7 - y] == mirrored_square(board[x][y])
}

proof fn lemma_mirror_file_sum(
    file: [Option<Piece>; 8],
    mirror: [Option<Piece>; 8],
    f: spec_fn(Piece) -> int,
    g: spec_fn(Piece) -> int,
)
    requires
        forall|y: int| 0 <= y < 8 ==> #[trigger] mirror[7 - y] == mirrored_square(file[y]),
        forall|y: int|
            0 <= y < 8 ==> (#[trigger] file[y] matches Some(piece) ==> g(mirrored_piece(piece))
                == -f(piece)),
    ensures
        file_sum(mirror, g, 8) == -file_sum(file, f, 8),
{
    reveal_with_fuel(file_sum, 9);
    assert(mirror[7 - 0] == mirrored_square(file[0]));
    assert(mirror[7 - 1] == mirrored_square(file[1]));
    assert(mirror[7 - 2] == mirrored_square(file[2]));
    assert(mirror[7 - 3] == mirrored_square(file[3]));
    assert(mirror[7 - 4] == mirrored_square(file[4]));
    assert(mirror[7 - 5] == mirrored_square(file[5]));
    assert(mirror[7 - 6] == mirrored_square(file[6]));
    assert(mirror[7 - 7] == mirrored_square(file[7]));
}

proof fn lemma_mirror_board_sum(
    board: Board,
    mirror: Board,
    f: spec_fn(Piece) -> int,
    g: spec_fn(Piece) -> int,
    n: int,
)
    requires
        0 <= n <= 8,
        is_mirror(board, mirror),
        forall|x: int, y: int|
            on_board(x, y) ==> (#[trigger] board[x][y] matches Some(piece) ==> g(
                mirrored_piece(piece),
            ) == -f(piece)),
    ensures
        board_sum(mirror, g, n) == -board_sum(board, f, n),
    decreases n,
{
    if n > 0 {
        lemma_mirror_board_sum(board, mirror, f, g, n - 1);
        let x = n - 1;
        assert forall|y: int| 0 <= y < 8 implies #[trigger] mirror[x][7 - y] == mirrored_square(
            board[x][y],
        ) by {
            assert(on_board(x, y));
        }
        assert forall|y: int| 0 <= y < 8 implies (#[trigger] board[x][y] matches Some(piece) ==> g(
            mirrored_piece(piece),
        ) == -f(piece)) by {
            assert(on_board(x, y));
        }
        lemma_mirror_file_sum(board[x], mirror[x], f, g);
    }
}

proof fn lemma_negated_sum(board: Board, f: spec_fn(Piece) -> int, g: spec_fn(Piece) -> int, n: int)
    requires
        0 <= n <= 8,
        forall|piece: Piece| #[trigger] g(piece) == -f(piece),
    ensures
        board_sum(board, g, n) == -board_sum(board, f, n),
    decreases n,
{
    if n > 0 {
        lemma_negated_sum(board, f, g, n - 1);
        reveal_with_fuel(file_sum, 9);
    }
}

/// The value of a piece is the opposite of the value of its mirror image.
pub proof fn lemma_mirrored_piece_value(piece: Piece, is_endgame: bool)
    requires
        piece.wf(),
    ensures
        mirrored_piece(piece).spec_value(is_endgame) == -piece.spec_value(is_endgame),
        mirrored_piece(piece).wf(),
{
}

/// Static evaluation is antisymmetric in the colors: the mirror of a
/// board, in which every piece has changed color and stands where the
/// other side would see it, has the opposite static score. The mirror has
/// reached its endgame exactly when the board has, and holds a king of one
/// color exactly when the board holds a king of the other.
pub proof fn lemma_mirror_negates_static_score(board: Board, mirror: Board, is_endgame: bool)
    requires
        valid_board(board),
        is_mirror(board, mirror),
    ensures
        static_score(mirror, is_endgame) == -static_score(board, is_endgame),
        endgame(mirror) == endgame(board),
        king_present(mirror, PieceColor::White) == king_present(board, PieceColor::Black),
        king_present(mirror, PieceColor::Black) == king_present(board, PieceColor::White),
{
    let value = value_in(is_endgame);
    assert forall|x: int, y: int| on_board(x, y) implies (#[trigger] board[x][y] matches Some(
        piece,
    ) ==> value(mirrored_piece(piece)) == -value(piece)) by {
        if let Some(piece) = board[x][y] {
            lemma_mirrored_piece_value(piece, is_endgame);
        }
    }
    lemma_mirror_board_sum(board, mirror, value, value, 8);
    lemma_mirror_counts(board, mirror, PieceColor::White);
    lemma_mirror_counts(board, mirror, PieceColor::Black);
    lemma_mirror_king(board, mirror, PieceColor::White);
    lemma_mirror_king(board, mirror, PieceColor::Black);
}

proof fn lemma_mirror_counts(board: Board, mirror: Board, color: PieceColor)
    requires
        is_mirror(board, mirror),
    ensures
        queens(mirror, color.opponent()) == queens(board, color),
        officers(mirror, color.opponent()) == officers(board, color),
{
    let f = one_if(color, PieceType::Queen);
    let g = one_if(color.opponent(), PieceType::Queen);
    let minus_f = |piece: Piece| -f(piece);
    lemma_mirror_board_sum(board, mirror, minus_f, g, 8);
    lemma_negated_sum(board, f, minus_f, 8);
    let f = one_if_officer(color);
    let g = one_if_officer(color.opponent());
    let minus_f = |piece: Piece| -f(piece);
    lemma_mirror_board_sum(board, mirror, minus_f, g, 8);
    lemma_negated_sum(board, f, minus_f, 8);
}

proof fn lemma_mirror_king(board: Board, mirror: Board, color: PieceColor)
    requires
        is_mirror(board, mirror),
    ensures
        king_present(mirror, color.opponent()) == king_present(board, color),
{
    if king_present(board, color) {
        let (x, y) = choose|x: int, y: int| on_board(x, y) && #[trigger] king_at(board, x, y, color);
        assert(mirror[x][7 - y] == mirrored_square(board[x][y]));
        assert(king_at(mirror, x, 7 - y, color.opponent()));
    }
    if king_present(mirror, color.opponent()) {
        let (x, y) = choose|x: int, y: int|
            on_board(x, y) && #[trigger] king_at(mirror, x, y, color.opponent());
        assert(mirror[x][7 - (7 - y)] == mirrored_square(board[x][7 - y]));
        assert(king_at(board, x, 7 - y, color));
    }
}

} // verus!
