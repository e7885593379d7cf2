//! What holds of the moves of every piece on every board.

use vstd::prelude::*;
use crate::common::{on_board, Move};
use crate::piece::{along, occupied, Board, Piece, PieceType, KING_STEPS, KNIGHT_STEPS};

verus! {

/// Whether `m` leaves the square of `piece` for a square of the board that
/// holds no piece of the same color.
pub open spec fn pseudo_legal(piece: Piece, board: Board, m: Move) -> bool {
    m.0 == piece.position() && piece.legal(m.1.0 as int, m.1.1 as int, board)
}

/// Whether every move of `moves` is pseudo-legal for `piece`.
pub open spec fn all_pseudo_legal(piece: Piece, board: Board, moves: Seq<Move>) -> bool {
    forall|i: int| 0 <= i < moves.len() ==> pseudo_legal(piece, board, #[trigger] moves[i])
}

/// Whether (`dx`, `dy`) is one of the eight directions of a sliding piece.
pub open spec fn is_direction(dx: int, dy: int) -> bool {
    -1 <= dx <= 1 && -1 <= dy <= 1 && !(dx == 0 && dy == 0)
}

/// A slide reaches no more squares than the ray has.
pub proof fn lemma_ray_reach_bounds(piece: Piece, board: Board, dx: int, dy: int, k: int)
    ensures
        0 <= piece.ray_reach(board, dx, dy, k),
        k <= 8 ==> piece.ray_reach(board, dx, dy, k) <= 8 - k,
    decreases 8 - k,
{
    if k < 8 {
        lemma_ray_reach_bounds(piece, board, dx, dy, k + 1);
    }
}

proof fn lemma_ray_square_legal(piece: Piece, board: Board, dx: int, dy: int, k: int, j: int)
    requires
        1 <= k <= j < k + piece.ray_reach(board, dx, dy, k),
    ensures
        piece.legal(along(piece.x as int, dx, j), along(piece.y as int, dy, j), board),
    decreases 8 - k,
{
    if j > k {
        lemma_ray_square_legal(piece, board, dx, dy, k + 1, j);
    }
}

proof fn lemma_ray_moves_pseudo_legal(piece: Piece, board: Board, dx: int, dy: int)
    ensures
        all_pseudo_legal(piece, board, piece.ray_moves(board, dx, dy)),
{
    let moves = piece.ray_moves(board, dx, dy);
    assert forall|i: int| 0 <= i < moves.len() implies pseudo_legal(
        piece,
        board,
        #[trigger] moves[i],
    ) by {
        lemma_ray_reach_bounds(piece, board, dx, dy, 1);
        lemma_ray_square_legal(piece, board, dx, dy, 1, i + 1);
    }
}

proof fn lemma_step_moves_pseudo_legal(piece: Piece, board: Board, steps: Seq<(i8, i8)>)
    requires
        piece.wf(),
    ensures
        all_pseudo_legal(piece, board, piece.step_moves(board, steps)),
    decreases steps.len(),
{
    if steps.len() > 0 {
        lemma_step_moves_pseudo_legal(piece, board, steps.drop_last());
    }
}

/// A move by one of the given steps goes no further along the files than
/// the longest of the steps.
pub proof fn lemma_step_moves_near(piece: Piece, board: Board, steps: Seq<(i8, i8)>, reach: int)
    requires
        piece.wf(),
        forall|j: int| 0 <= j < steps.len() ==> -reach <= (#[trigger] steps[j]).0 <= reach,
    ensures
        forall|i: int|
            0 <= i < piece.step_moves(board, steps).len() ==> -reach <= (
            #[trigger] piece.step_moves(board, steps)[i]).1.0 - piece.x <= reach,
    decreases steps.len(),
{
    if steps.len() > 0 {
        lemma_step_moves_near(piece, board, steps.drop_last(), reach);
        assert(-reach <= steps[steps.len() - 1].0 <= reach);
        let rest = piece.step_moves(board, steps.drop_last());
        let moves = piece.step_moves(board, steps);
        assert forall|i: int| 0 <= i < moves.len() implies -reach <= (#[trigger] moves[i]).1.0
            - piece.x <= reach by {
            if i < rest.len() {
                assert(moves[i] == rest[i]);
            }
        }
    }
}

/// Generated moves never leave the board and never land on a piece of the
/// mover's color: every move of a piece starts on the piece's own square
/// and ends on a square of the board that is empty or held by the other
/// color.
pub proof fn lemma_moves_pseudo_legal(piece: Piece, board: Board)
    requires
        piece.wf(),
    ensures
        all_pseudo_legal(piece, board, piece.moves(board)),
{
    lemma_ray_moves_pseudo_legal(piece, board, 1, 0);
    lemma_ray_moves_pseudo_legal(piece, board, -1, 0);
    lemma_ray_moves_pseudo_legal(piece, board, 0, 1);
    lemma_ray_moves_pseudo_legal(piece, board, 0, -1);
    lemma_ray_moves_pseudo_legal(piece, board, 1, 1);
    lemma_ray_moves_pseudo_legal(piece, board, 1, -1);
    lemma_ray_moves_pseudo_legal(piece, board, -1, 1);
    lemma_ray_moves_pseudo_legal(piece, board, -1, -1);
    lemma_step_moves_pseudo_legal(piece, board, KING_STEPS@);
    lemma_step_moves_pseudo_legal(piece, board, KNIGHT_STEPS@);
    if piece.piece_type == PieceType::King {
        if piece.may_castle(board, 0) {
            assert(!occupied(board, 2, piece.y as int));
        }
        if piece.may_castle(board, 7) {
            assert(!occupied(board, 6, piece.y as int));
        }
    }
}

proof fn lemma_ray_to_first_piece(piece: Piece, board: Board, dx: int, dy: int, n: int, k: int)
    requires
        piece.wf(),
        is_direction(dx, dy),
        1 <= k <= n < 8,
        on_board(along(piece.x as int, dx, n), along(piece.y as int, dy, n)),
        occupied(board, along(piece.x as int, dx, n), along(piece.y as int, dy, n)),
        forall|j: int|
            1 <= j < n ==> !occupied(
                board,
                #[trigger] along(piece.x as int, dx, j),
                along(piece.y as int, dy, j),
            ),
    ensures
        piece.ray_reach(board, dx, dy, k) == if piece.legal(
            along(piece.x as int, dx, n),
            along(piece.y as int, dy, n),
            board,
        ) {
            n - k + 1
        } else {
            n - k
        },
    decreases n - k,
{
    if k < n {
        lemma_ray_to_first_piece(piece, board, dx, dy, n, k + 1);
        assert(!occupied(board, along(piece.x as int, dx, k), along(piece.y as int, dy, k)));
    }
}

/// A slide stops at the first piece on its ray. Where that piece, on the
/// `n`-th square of the ray, is of the other color, the slide reaches
/// exactly `n` squares: the last one is the capture and nothing beyond it
/// is reached. Where it is of the slider's own color, the slide reaches
/// the `n - 1` squares before it.
pub proof fn lemma_ray_stops_at_first_piece(piece: Piece, board: Board, dx: int, dy: int, n: int)
    requires
        piece.wf(),
        is_direction(dx, dy),
        1 <= n < 8,
        on_board(along(piece.x as int, dx, n), along(piece.y as int, dy, n)),
        occupied(board, along(piece.x as int, dx, n), along(piece.y as int, dy, n)),
        forall|j: int|
            1 <= j < n ==> !occupied(
                board,
                #[trigger] along(piece.x as int, dx, j),
                along(piece.y as int, dy, j),
            ),
    ensures
        piece.ray_moves(board, dx, dy).len() == if board[along(piece.x as int, dx, n)][along(
            piece.y as int,
            dy,
            n,
        )].unwrap().piece_color != piece.piece_color {
            n
        } else {
            n - 1
        },
        forall|i: int|
            0 <= i < piece.ray_moves(board, dx, dy).len() ==> piece.ray_moves(board, dx, dy)[i]
                == piece.ray_move(dx, dy, i + 1),
{
    lemma_ray_reach_bounds(piece, board, dx, dy, 1);
    lemma_ray_to_first_piece(piece, board, dx, dy, n, 1);
}

proof fn lemma_ray_to_edge(piece: Piece, board: Board, dx: int, dy: int, n: int, k: int)
    requires
        piece.wf(),
        is_direction(dx, dy),
        1 <= k <= n <= 8,
        !on_board(along(piece.x as int, dx, n), along(piece.y as int, dy, n)),
        forall|j: int|
            1 <= j < n ==> on_board(
                #[trigger] along(piece.x as int, dx, j),
                along(piece.y as int, dy, j),
            ) && !occupied(board, along(piece.x as int, dx, j), along(piece.y as int, dy, j)),
    ensures
        piece.ray_reach(board, dx, dy, k) == n - k,
    decreases n - k,
{
    if k < n {
        lemma_ray_to_edge(piece, board, dx, dy, n, k + 1);
        assert(on_board(along(piece.x as int, dx, k), along(piece.y as int, dy, k)));
    }
}

/// A slide that meets no piece runs to the edge of the board: where the
/// `n`-th square of the ray is the first one off the board and the squares
/// before it are empty, the slide reaches those `n - 1` squares.
pub proof fn lemma_ray_runs_to_edge(piece: Piece, board: Board, dx: int, dy: int, n: int)
    requires
        piece.wf(),
        is_direction(dx, dy),
        1 <= n <= 8,
        !on_board(along(piece.x as int, dx, n), along(piece.y as int, dy, n)),
        forall|j: int|
            1 <= j < n ==> on_board(
                #[trigger] along(piece.x as int, dx, j),
                along(piece.y as int, dy, j),
            ) && !occupied(board, along(piece.x as int, dx, j), along(piece.y as int, dy, j)),
    ensures
        piece.ray_moves(board, dx, dy).len() == n - 1,
{
    lemma_ray_reach_bounds(piece, board, dx, dy, 1);
    lemma_ray_to_edge(piece, board, dx, dy, n, 1);
}

/// The jumps of a knight are the steps of at most two files and two ranks
/// whose two distances multiply to two.
pub proof fn lemma_knight_steps(dx: i8, dy: i8)
    requires
        -2 <= dx <= 2,
        -2 <= dy <= 2,
    ensures
        KNIGHT_STEPS@.contains((dx, dy)) <==> (dx * dy == 2 || dx * dy == -2),
{
    let steps = KNIGHT_STEPS@;
    assert(steps[0] == (-2i8, -1i8) && steps[1] == (-2i8, 1i8) && steps[2] == (-1i8, -2i8)
        && steps[3] == (-1i8, 2i8) && steps[4] == (1i8, -2i8) && steps[5] == (1i8, 2i8)
        && steps[6] == (2i8, -1i8) && steps[7] == (2i8, 1i8));
    assert(dx * dy == 2 || dx * dy == -2 <==> (dx == 2 || dx == -2) && (dy == 1 || dy == -1) || (dx
        == 1 || dx == -1) && (dy == 2 || dy == -2)) by (nonlinear_arith)
        requires
            -2 <= dx <= 2,
            -2 <= dy <= 2,
    ;
}

} // verus!
