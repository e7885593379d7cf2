//! The state of a game: the board, whose turn it is, and the rules that
//! assess a position and change it.

use vstd::prelude::*;
use vstd::array::spec_array_update;
use crate::common::{on_board, Move, Position, Score};
use crate::move_laws::{lemma_moves_pseudo_legal, lemma_step_moves_near, pseudo_legal};
use crate::piece::{occupied, Board, Piece, PieceColor, PieceType, KING_STEPS};

verus! {

/// The board, the color to move, and whether the turn belongs to a human
/// player. The flag says who owns the turn, not which color moves.
#[derive(Debug, Clone, Copy, PartialEq, Eq, Hash)]
pub struct GameState {
    pub board: Board,
    pub now_moves: PieceColor,
    pub player_moves: bool,
}

/// Whether every piece of the board records the square it stands on.
pub open spec fn valid_board(board: Board) -> bool {
    forall|x: int, y: int|
        on_board(x, y) ==> match #[trigger] board[x][y] {
            Some(piece) => piece.x == x && piece.y == y,
            None => true,
        }
}

/// The sum of `f` over the pieces on the first `n` squares of a file.
pub open spec fn file_sum(file: [Option<Piece>; 8], f: spec_fn(Piece) -> int, n: int) -> int
    decreases n,
{
    if n <= 0 {
        0
    } else {
        file_sum(file, f, n - 1) + match file[n - 1] {
            Some(piece) => f(piece),
            None => 0,
        }
    }
}

/// The sum of `f` over the pieces on the first `n` files of a board.
pub open spec fn board_sum(board: Board, f: spec_fn(Piece) -> int, n: int) -> int
    decreases n,
{
    if n <= 0 {
        0
    } else {
        board_sum(board, f, n - 1) + file_sum(board[n - 1], f, 8)
    }
}

/// Counts a piece of the given color and type as one, any other as none.
pub open spec fn one_if(color: PieceColor, piece_type: PieceType) -> spec_fn(Piece) -> int {
    |piece: Piece| if piece.piece_color == color && piece.piece_type == piece_type {
        1int
    } else {
        0int
    }
}

/// Counts a rook, bishop or knight of the given color as one, any other
/// piece as none.
pub open spec fn one_if_officer(color: PieceColor) -> spec_fn(Piece) -> int {
    |piece: Piece| if piece.piece_color == color && (piece.piece_type == PieceType::Rook
        || piece.piece_type == PieceType::Bishop || piece.piece_type == PieceType::Knight) {
        1int
    } else {
        0int
    }
}

/// The value of a piece in the given phase of the game.
pub open spec fn value_in(is_endgame: bool) -> spec_fn(Piece) -> int {
    |piece: Piece| piece.spec_value(is_endgame)
}

/// Whether the square holds the king of `color`.
pub open spec fn king_at(board: Board, x: int, y: int, color: PieceColor) -> bool {
    board[x][y] matches Some(piece) && piece.piece_type == PieceType::King && piece.piece_color
        == color
}

/// Whether a king of `color` stands on the board.
pub open spec fn king_present(board: Board, color: PieceColor) -> bool {
    exists|x: int, y: int| on_board(x, y) && #[trigger] king_at(board, x, y, color)
}

/// Whether a king of `color` stands on a file before file `i`, or on file
/// `i` on a rank before rank `j`.
pub open spec fn king_before(board: Board, color: PieceColor, i: int, j: int) -> bool {
    exists|x: int, y: int|
        on_board(x, y) && (x < i || (x == i && y < j)) && #[trigger] king_at(board, x, y, color)
}

/// Number of queens of `color` on the board.
pub open spec fn queens(board: Board, color: PieceColor) -> int {
    board_sum(board, one_if(color, PieceType::Queen), 8)
}

/// Number of rooks, bishops and knights of `color` on the board.
pub open spec fn officers(board: Board, color: PieceColor) -> int {
    board_sum(board, one_if_officer(color), 8)
}

/// Whether `color` has reached its endgame: it has no queen, or at most
/// one rook, bishop or knight.
pub open spec fn side_in_endgame(board: Board, color: PieceColor) -> bool {
    queens(board, color) == 0 || officers(board, color) <= 1
}

/// Whether the game has reached its endgame: each side has, for itself.
pub open spec fn endgame(board: Board) -> bool {
    side_in_endgame(board, PieceColor::White) && side_in_endgame(board, PieceColor::Black)
}

/// The static score of a board, in score units: the sum of the values of
/// its pieces, positive where White is ahead.
pub open spec fn static_score(board: Board, is_endgame: bool) -> int {
    board_sum(board, value_in(is_endgame), 8)
}

/// The board with the content of one square replaced.
pub open spec fn with_square(board: Board, x: int, y: int, content: Option<Piece>) -> Board {
    spec_array_update(board, x, spec_array_update(board[x], y, content))
}

/// Reading a board of which one square was replaced gives the new content
/// on that square and the old content on every other.
pub proof fn lemma_with_square(board: Board, x: int, y: int, content: Option<Piece>)
    requires
        on_board(x, y),
    ensures
        forall|i: int, j: int|
            on_board(i, j) ==> #[trigger] with_square(board, x, y, content)[i][j] == if i == x && j
                == y {
                content
            } else {
                board[i][j]
            },
{
}

/// The piece as it arrives on `to`: a pawn that reaches the first or the
/// last rank arrives as a queen.
pub open spec fn arriving(piece: Piece, to: Position) -> Piece {
    Piece {
        piece_color: piece.piece_color,
        piece_type: if piece.piece_type == PieceType::Pawn && (to.1 == 0 || to.1 == 7) {
            PieceType::Queen
        } else {
            piece.piece_type
        },
        x: to.0,
        y: to.1,
    }
}

/// The move of the rook that goes with a king's move of two files: from the
/// corner the king moves towards, to the square the king passes over.
pub open spec fn rook_relocation(piece: Piece, from: Position, to: Position) -> Option<Move> {
    if piece.piece_type == PieceType::King && from.0 + 2 == to.0 {
        Some((Position(7, from.1), Position(5, to.1)))
    } else if piece.piece_type == PieceType::King && from.0 - 2 == to.0 {
        Some((Position(0, from.1), Position(3, to.1)))
    } else {
        None
    }
}

/// How many relocations a move of this shape can set off at most.
pub open spec fn hops(from: Position, to: Position) -> nat {
    if from.0 + 2 == to.0 {
        2
    } else if from.0 - 2 == to.0 {
        1
    } else {
        0
    }
}

/// Whether the move can be made on the board: both squares are on the
/// board, a piece stands on `from`, and where the move relocates a rook,
/// that relocation can be made once the piece is lifted.
pub open spec fn can_move(board: Board, from: Position, to: Position) -> bool
    decreases hops(from, to),
{
    &&& from.valid()
    &&& to.valid()
    &&& board[from.0 as int][from.1 as int] matches Some(piece)
    &&& {
        let lifted = with_square(board, from.0 as int, from.1 as int, None);
        if piece.piece_type == PieceType::King && from.0 + 2 == to.0 {
            can_move(lifted, Position(7, from.1), Position(5, to.1))
        } else if piece.piece_type == PieceType::King && from.0 - 2 == to.0 {
            can_move(lifted, Position(0, from.1), Position(3, to.1))
        } else {
            true
        }
    }
}

/// The board after the move: the piece leaves `from`, the rook that goes
/// with a king's move of two files is relocated, and the piece arrives on
/// `to`, replacing what stood there.
pub open spec fn moved(board: Board, from: Position, to: Position) -> Board
    decreases hops(from, to),
{
    let piece = board[from.0 as int][from.1 as int].unwrap();
    let lifted = with_square(board, from.0 as int, from.1 as int, None);
    let relocated = if piece.piece_type == PieceType::King && from.0 + 2 == to.0 {
        moved(lifted, Position(7, from.1), Position(5, to.1))
    } else if piece.piece_type == PieceType::King && from.0 - 2 == to.0 {
        moved(lifted, Position(0, from.1), Position(3, to.1))
    } else {
        lifted
    };
    with_square(relocated, to.0 as int, to.1 as int, Some(arriving(piece, to)))
}

/// A move keeps the board valid.
pub proof fn lemma_moved_valid(board: Board, from: Position, to: Position)
    requires
        valid_board(board),
        can_move(board, from, to),
    ensures
        valid_board(moved(board, from, to)),
    decreases hops(from, to),
{
    let piece = board[from.0 as int][from.1 as int].unwrap();
    let lifted = with_square(board, from.0 as int, from.1 as int, None);
    lemma_with_square(board, from.0 as int, from.1 as int, None);
    let relocated = if piece.piece_type == PieceType::King && from.0 + 2 == to.0 {
        lemma_moved_valid(lifted, Position(7, from.1), Position(5, to.1));
        moved(lifted, Position(7, from.1), Position(5, to.1))
    } else if piece.piece_type == PieceType::King && from.0 - 2 == to.0 {
        lemma_moved_valid(lifted, Position(0, from.1), Position(3, to.1));
        moved(lifted, Position(0, from.1), Position(3, to.1))
    } else {
        lifted
    };
    lemma_with_square(relocated, to.0 as int, to.1 as int, Some(arriving(piece, to)));
}

/// Whether the move lands on a piece.
pub open spec fn captures(board: Board, m: Move) -> bool {
    occupied(board, m.1.0 as int, m.1.1 as int)
}

/// The test that picks the captures among the moves on a board.
pub open spec fn capture_on(board: Board) -> spec_fn(Move) -> bool {
    |m: Move| captures(board, m)
}

/// The test that picks the moves onto empty squares.
pub open spec fn quiet_on(board: Board) -> spec_fn(Move) -> bool {
    |m: Move| !captures(board, m)
}

/// The moves with the captures put first; among the captures, and among
/// the other moves, the order is kept.
pub open spec fn captures_first(board: Board, moves: Seq<Move>) -> Seq<Move> {
    moves.filter(capture_on(board)) + moves.filter(quiet_on(board))
}

/// Whether `m` is a move of a piece of the color to move: such a piece
/// stands on the square that `m` leaves, and `m` is among its moves.
pub open spec fn move_of_mover(state: GameState, m: Move) -> bool {
    &&& m.0.valid()
    &&& state.board[m.0.0 as int][m.0.1 as int] matches Some(piece)
    &&& piece.piece_color == state.now_moves
    &&& piece.moves(state.board).contains(m)
}

/// Whether every move of `moves` is a move of a piece of the color to move.
pub open spec fn all_of_mover(state: GameState, moves: Seq<Move>) -> bool {
    forall|i: int| 0 <= i < moves.len() ==> move_of_mover(state, #[trigger] moves[i])
}

proof fn lemma_all_of_mover_add(state: GameState, a: Seq<Move>, b: Seq<Move>)
    requires
        all_of_mover(state, a),
        all_of_mover(state, b),
    ensures
        all_of_mover(state, a + b),
{
    assert forall|i: int| 0 <= i < (a + b).len() implies move_of_mover(
        state,
        #[trigger] (a + b)[i],
    ) by {
        if i < a.len() {
            assert((a + b)[i] == a[i]);
        } else {
            assert((a + b)[i] == b[i - a.len()]);
        }
    }
}

impl GameState {
    /// The moves of the piece on file `x`, rank `y`, where it is of the
    /// color to move.
    pub open spec fn square_moves(self, x: int, y: int) -> Seq<Move> {
        match self.board[x][y] {
            Some(piece) => if piece.piece_color == self.now_moves {
                piece.moves(self.board)
            } else {
                Seq::empty()
            },
            None => Seq::empty(),
        }
    }

    /// The moves from the first `n` ranks of file `x`, lowest rank first.
    pub open spec fn file_moves(self, x: int, n: int) -> Seq<Move>
        decreases n,
    {
        if n <= 0 {
            Seq::empty()
        } else {
            self.file_moves(x, n - 1) + self.square_moves(x, n - 1)
        }
    }

    /// The moves from the first `n` files, lowest file first.
    pub open spec fn moves_before(self, n: int) -> Seq<Move>
        decreases n,
    {
        if n <= 0 {
            Seq::empty()
        } else {
            self.moves_before(n - 1) + self.file_moves(n - 1, 8)
        }
    }

    /// The moves of the color to move: those of each of its pieces, taken
    /// file by file and rank by rank, reordered so that captures come first.
    pub open spec fn legal_moves(self) -> Seq<Move> {
        captures_first(self.board, self.moves_before(8))
    }

    proof fn lemma_file_moves_of_mover(self, x: int, n: int)
        requires
            self.wf(),
            0 <= x < 8,
            0 <= n <= 8,
        ensures
            all_of_mover(self, self.file_moves(x, n)),
        decreases n,
    {
        if n > 0 {
            self.lemma_file_moves_of_mover(x, n - 1);
            assert(on_board(x, n - 1));
            let moves = self.square_moves(x, n - 1);
            assert forall|i: int| 0 <= i < moves.len() implies move_of_mover(
                self,
                #[trigger] moves[i],
            ) by {
                let piece = self.board[x][n - 1].unwrap();
                lemma_moves_pseudo_legal(piece, self.board);
                assert(pseudo_legal(piece, self.board, moves[i]));
                assert(piece.moves(self.board).contains(moves[i]));
            }
            lemma_all_of_mover_add(self, self.file_moves(x, n - 1), moves);
        }
    }

    proof fn lemma_moves_before_of_mover(self, n: int)
        requires
            self.wf(),
            0 <= n <= 8,
        ensures
            all_of_mover(self, self.moves_before(n)),
        decreases n,
    {
        if n > 0 {
            self.lemma_moves_before_of_mover(n - 1);
            self.lemma_file_moves_of_mover(n - 1, 8);
            lemma_all_of_mover_add(self, self.moves_before(n - 1), self.file_moves(n - 1, 8));
        }
    }

    /// Every listed move is a move of a piece of the color to move.
    pub proof fn lemma_legal_moves_of_mover(self)
        requires
            self.wf(),
        ensures
            all_of_mover(self, self.legal_moves()),
    {
        self.lemma_moves_before_of_mover(8);
        let all = self.moves_before(8);
        let listed = self.legal_moves();
        assert forall|i: int| 0 <= i < listed.len() implies move_of_mover(
            self,
            #[trigger] listed[i],
        ) by {
            let m = listed[i];
            let first = all.filter(capture_on(self.board));
            let second = all.filter(quiet_on(self.board));
            if i < first.len() {
                assert(first[i] == m);
                assert(first.contains(m));
                all.lemma_filter_contains_rev(capture_on(self.board), m);
            } else {
                assert(second[i - first.len()] == m);
                assert(second.contains(m));
                all.lemma_filter_contains_rev(quiet_on(self.board), m);
            }
            assert(all.contains(m));
        }
    }

    proof fn lemma_file_moves_complete(self, x: int, n: int, y: int, m: Move)
        requires
            0 <= y < n,
            self.square_moves(x, y).contains(m),
        ensures
            self.file_moves(x, n).contains(m),
        decreases n,
    {
        let before = self.file_moves(x, n - 1);
        let last = self.square_moves(x, n - 1);
        if y < n - 1 {
            self.lemma_file_moves_complete(x, n - 1, y, m);
            let i = choose|i: int| 0 <= i < before.len() && before[i] == m;
            assert((before + last)[i] == m);
        } else {
            let i = choose|i: int| 0 <= i < last.len() && last[i] == m;
            assert((before + last)[before.len() + i] == m);
        }
    }

    proof fn lemma_moves_before_complete(self, n: int, x: int, y: int, m: Move)
        requires
            0 <= x < n,
            0 <= y < 8,
            self.square_moves(x, y).contains(m),
        ensures
            self.moves_before(n).contains(m),
        decreases n,
    {
        let before = self.moves_before(n - 1);
        let last = self.file_moves(n - 1, 8);
        if x < n - 1 {
            self.lemma_moves_before_complete(n - 1, x, y, m);
            let i = choose|i: int| 0 <= i < before.len() && before[i] == m;
            assert((before + last)[i] == m);
        } else {
            self.lemma_file_moves_complete(x, 8, y, m);
            let i = choose|i: int| 0 <= i < last.len() && last[i] == m;
            assert((before + last)[before.len() + i] == m);
        }
    }

    /// The listed moves are exactly the moves of the pieces of the color
    /// to move: a move is listed if and only if a piece of that color
    /// stands on the square it leaves and the move is among the moves of
    /// that piece.
    pub proof fn lemma_legal_moves_are_the_moves_of_the_mover(self, m: Move)
        requires
            self.wf(),
        ensures
            self.legal_moves().contains(m) <==> move_of_mover(self, m),
    {
        self.lemma_legal_moves_of_mover();
        if move_of_mover(self, m) {
            let all = self.moves_before(8);
            assert(self.square_moves(m.0.0 as int, m.0.1 as int).contains(m));
            self.lemma_moves_before_complete(8, m.0.0 as int, m.0.1 as int, m);
            let i = choose|i: int| 0 <= i < all.len() && all[i] == m;
            let first = all.filter(capture_on(self.board));
            let second = all.filter(quiet_on(self.board));
            if captures(self.board, m) {
                all.lemma_filter_contains(capture_on(self.board), i);
                let j = choose|j: int| 0 <= j < first.len() && first[j] == m;
                assert((first + second)[j] == m);
            } else {
                all.lemma_filter_contains(quiet_on(self.board), i);
                let j = choose|j: int| 0 <= j < second.len() && second[j] == m;
                assert((first + second)[first.len() + j] == m);
            }
        }
    }

    /// A move of a piece of the color to move can be made, and lands on
    /// the board on a square that holds no piece of that color.
    pub proof fn lemma_move_of_mover_can_move(self, m: Move)
        requires
            self.wf(),
            move_of_mover(self, m),
        ensures
            can_move(self.board, m.0, m.1),
            m.1.valid(),
            match self.board[m.1.0 as int][m.1.1 as int] {
                Some(taken) => taken.piece_color != self.now_moves,
                None => true,
            },
    {
        let board = self.board;
        let piece = board[m.0.0 as int][m.0.1 as int].unwrap();
        assert(on_board(m.0.0 as int, m.0.1 as int));
        lemma_moves_pseudo_legal(piece, board);
        let moves = piece.moves(board);
        let i = choose|i: int| 0 <= i < moves.len() && moves[i] == m;
        assert(pseudo_legal(piece, board, moves[i]));
        reveal_with_fuel(can_move, 2);
        lemma_with_square(board, m.0.0 as int, m.0.1 as int, None);
        if piece.piece_type == PieceType::King {
            let steps = piece.step_moves(board, KING_STEPS@);
            lemma_step_moves_near(piece, board, KING_STEPS@, 1);
            if i < steps.len() {
                assert(moves[i] == steps[i]);
            }
        }
    }

    fn is_capture(&self, _from: Position, to: Position) -> (r: bool)
        requires
            to.valid(),
        ensures
            r == captures(self.board, (_from, to)),
    {
        self.board[to.0 as usize][to.1 as usize].is_some()
    }

    /// Lists the moves of the color to move, captures first. Captures keep
    /// the order in which the pieces gave them, and so do the other moves.
    pub fn generate_legal_moves(&self) -> (r: Vec<Move>)
        requires
            self.wf(),
        ensures
            r@ == self.legal_moves(),
            all_of_mover(*self, r@),
    {
        let mut legal_moves: Vec<Move> = Vec::new();
        let mut i: usize = 0;
        while i < 8
            invariant
                i <= 8,
                self.wf(),
                legal_moves@ == self.moves_before(i as int),
            decreases 8 - i,
        {
            let ghost before = legal_moves@;
            let mut j: usize = 0;
            while j < 8
                invariant
                    i < 8,
                    j <= 8,
                    self.wf(),
                    before == self.moves_before(i as int),
                    legal_moves@ == before + self.file_moves(i as int, j as int),
                decreases 8 - j,
            {
                let ghost so_far = legal_moves@;
                if let Some(piece) = self.board[i][j] {
                    if piece.piece_color == self.now_moves {
                        assert(on_board(i as int, j as int));
                        let mut piece_moves = piece.generate_legal_moves(self.board);
                        legal_moves.append(&mut piece_moves);
                    }
                }
                assert(legal_moves@ =~= so_far + self.square_moves(i as int, j as int));
                assert(legal_moves@ =~= before + self.file_moves(i as int, j + 1));
                j += 1;
            }
            i += 1;
        }
        proof {
            self.lemma_moves_before_of_mover(8);
            self.lemma_legal_moves_of_mover();
        }
        let ghost all = legal_moves@;
        let mut first: Vec<Move> = Vec::new();
        let mut second: Vec<Move> = Vec::new();
        let mut k: usize = 0;
        while k < legal_moves.len()
            invariant
                k <= legal_moves.len(),
                legal_moves@ == all,
                all_of_mover(*self, all),
                self.wf(),
                first@ == all.take(k as int).filter(capture_on(self.board)),
                second@ == all.take(k as int).filter(quiet_on(self.board)),
            decreases legal_moves.len() - k,
        {
            let (from, to) = legal_moves[k];
            proof {
                assert(move_of_mover(*self, all[k as int]));
                let piece = self.board[from.0 as int][from.1 as int].unwrap();
                lemma_moves_pseudo_legal(piece, self.board);
                let index = choose|index: int|
                    0 <= index < piece.moves(self.board).len() && piece.moves(self.board)[index]
                        == (from, to);
                assert(pseudo_legal(piece, self.board, piece.moves(self.board)[index]));
                assert(all.take(k + 1).drop_last() =~= all.take(k as int));
                reveal(Seq::filter);
            }
            if self.is_capture(from, to) {
                first.push((from, to));
            } else {
                second.push((from, to));
            }
            k += 1;
        }
        proof {
            assert(all.take(k as int) =~= all);
        }
        first.append(&mut second);
        first
    }

    /// The state after the move, with the turn passed on where
    /// `change_now_moves` says so.
    pub open spec fn after_move(
        self,
        from: Position,
        to: Position,
        change_now_moves: bool,
    ) -> GameState {
        GameState {
            board: moved(self.board, from, to),
            now_moves: if change_now_moves {
                self.now_moves.opponent()
            } else {
                self.now_moves
            },
            player_moves: self.player_moves,
        }
    }

    /// Moves the piece on `from` to `to`. A king that moves two files takes
    /// the rook of that side along; a pawn that reaches the first or the
    /// last rank becomes a queen. Whatever stood on `to` is taken. The turn
    /// passes to the other color where `change_now_moves` is set.
    pub fn move_piece(&mut self, from: Position, to: Position, change_now_moves: bool)
        requires
            can_move(old(self).board, from, to),
        ensures
            *final(self) == old(self).after_move(from, to, change_now_moves),
            old(self).wf() ==> final(self).wf(),
        decreases hops(from, to),
    {
        proof {
            if self.wf() {
                lemma_moved_valid(self.board, from, to);
            }
        }
        let mut piece = self.board[from.0 as usize][from.1 as usize].unwrap();
        self.board[from.0 as usize][from.1 as usize] = None;
        assert(self.board =~~= with_square(old(self).board, from.0 as int, from.1 as int, None));
        if piece.piece_type == PieceType::King {
            if from.0 + 2 == to.0 {
                self.move_piece(Position(7, from.1), Position(5, to.1), false);
            }
            if from.0 - 2 == to.0 {
                self.move_piece(Position(0, from.1), Position(3, to.1), false);
            }
        }
        if piece.piece_type == PieceType::Pawn && (to.1 == 0 || to.1 == 7) {
            piece.piece_type = PieceType::Queen;
        }
        piece.move_piece(to.0, to.1);
        let ghost relocated = self.board;
        self.board[to.0 as usize][to.1 as usize] = Some(piece);
        assert(self.board =~~= with_square(relocated, to.0 as int, to.1 as int, Some(piece)));
        if change_now_moves {
            self.now_moves =
            match self.now_moves {
                PieceColor::White => PieceColor::Black,
                PieceColor::Black => PieceColor::White,
            };
        }
    }

    /// Whether every piece of the board records the square it stands on.
    pub open spec fn wf(&self) -> bool {
        valid_board(self.board)
    }

    /// Tells whether every piece of the board records the square it stands
    /// on.
    pub fn is_wf(&self) -> (r: bool)
        ensures
            r == self.wf(),
    {
        let mut i: usize = 0;
        while i < 8
            invariant
                i <= 8,
                forall|x: int, y: int|
                    0 <= x < i && 0 <= y < 8 ==> match #[trigger] self.board[x][y] {
                        Some(piece) => piece.x == x && piece.y == y,
                        None => true,
                    },
            decreases 8 - i,
        {
            let mut j: usize = 0;
            while j < 8
                invariant
                    i < 8,
                    j <= 8,
                    forall|x: int, y: int|
                        (0 <= x < i && 0 <= y < 8) || (x == i && 0 <= y < j)
                            ==> match #[trigger] self.board[x][y] {
                            Some(piece) => piece.x == x && piece.y == y,
                            None => true,
                        },
                decreases 8 - j,
            {
                if let Some(piece) = self.board[i][j] {
                    if piece.x != i as i8 || piece.y != j as i8 {
                        proof {
                            assert(on_board(i as int, j as int));
                        }
                        return false;
                    }
                }
                j += 1;
            }
            i += 1;
        }
        true
    }

    /// Tells whether two states are the same: the same content on every
    /// square, the same color to move, the same owner of the turn.
    pub fn same_as(&self, other: &GameState) -> (r: bool)
        ensures
            r == (*self == *other),
    {
        if self.now_moves != other.now_moves || self.player_moves != other.player_moves {
            return false;
        }
        let mut i: usize = 0;
        while i < 8
            invariant
                i <= 8,
                forall|x: int, y: int|
                    0 <= x < i && 0 <= y < 8 ==> self.board[x][y] == other.board[x][y],
            decreases 8 - i,
        {
            let mut j: usize = 0;
            while j < 8
                invariant
                    i < 8,
                    j <= 8,
                    forall|x: int, y: int|
                        (0 <= x < i && 0 <= y < 8) || (x == i && 0 <= y < j) ==> self.board[x][y]
                            == other.board[x][y],
                decreases 8 - j,
            {
                let same = match (self.board[i][j], other.board[i][j]) {
                    (None, None) => true,
                    (Some(mine), Some(theirs)) => mine == theirs,
                    _ => false,
                };
                if !same {
                    return false;
                }
                j += 1;
            }
            i += 1;
        }
        proof {
            assert forall|x: int| 0 <= x < 8 implies self.board[x] == other.board[x] by {
                assert forall|y: int| 0 <= y < 8 implies self.board[x][y] == other.board[x][y] by {}
                assert(self.board[x] =~= other.board[x]);
            }
            assert(self.board =~= other.board);
        }
        true
    }

    /// Reports whether White's king is on the board, whether Black's is,
    /// and whether the game has reached its endgame.
    pub fn stats(&self) -> (r: (bool, bool, bool))
        ensures
            r.0 == king_present(self.board, PieceColor::White),
            r.1 == king_present(self.board, PieceColor::Black),
            r.2 == endgame(self.board),
    {
        let mut white_king = false;
        let mut black_king = false;
        let mut white_queen: u32 = 0;
        let mut black_queen: u32 = 0;
        let mut white_other_pieces: u32 = 0;
        let mut black_other_pieces: u32 = 0;
        let ghost board = self.board;
        let mut i: usize = 0;
        while i < 8
            invariant
                i <= 8,
                board == self.board,
                white_king == king_before(board, PieceColor::White, i as int, 0),
                black_king == king_before(board, PieceColor::Black, i as int, 0),
                white_queen == board_sum(board, one_if(PieceColor::White, PieceType::Queen), i as int),
                black_queen == board_sum(board, one_if(PieceColor::Black, PieceType::Queen), i as int),
                white_other_pieces == board_sum(board, one_if_officer(PieceColor::White), i as int),
                black_other_pieces == board_sum(board, one_if_officer(PieceColor::Black), i as int),
                white_queen <= 8 * i,
                black_queen <= 8 * i,
                white_other_pieces <= 8 * i,
                black_other_pieces <= 8 * i,
            decreases 8 - i,
        {
            let ghost file = board[i as int];
            let ghost wq = white_queen;
            let ghost bq = black_queen;
            let ghost wo = white_other_pieces;
            let ghost bo = black_other_pieces;
            let mut j: usize = 0;
            while j < 8
                invariant
                    i < 8,
                    j <= 8,
                    board == self.board,
                    file == board[i as int],
                    white_king == king_before(board, PieceColor::White, i as int, j as int),
                    black_king == king_before(board, PieceColor::Black, i as int, j as int),
                    white_queen == wq + file_sum(file, one_if(PieceColor::White, PieceType::Queen), j as int),
                    black_queen == bq + file_sum(file, one_if(PieceColor::Black, PieceType::Queen), j as int),
                    white_other_pieces == wo + file_sum(file, one_if_officer(PieceColor::White), j as int),
                    black_other_pieces == bo + file_sum(file, one_if_officer(PieceColor::Black), j as int),
                    white_queen <= 8 * i + j,
                    black_queen <= 8 * i + j,
                    white_other_pieces <= 8 * i + j,
                    black_other_pieces <= 8 * i + j,
                decreases 8 - j,
            {
                if let Some(piece) = self.board[i][j] {
                    proof {
                        assert(king_at(board, i as int, j as int, PieceColor::White) == (
                        piece.piece_type == PieceType::King && piece.piece_color
                            == PieceColor::White));
                        assert(king_at(board, i as int, j as int, PieceColor::Black) == (
                        piece.piece_type == PieceType::King && piece.piece_color
                            == PieceColor::Black));
                    }
                    match (piece.piece_type, piece.piece_color) {
                        (PieceType::King, PieceColor::White) => white_king = true,
                        (PieceType::King, PieceColor::Black) => black_king = true,
                        (PieceType::Queen, PieceColor::White) => white_queen += 1,
                        (PieceType::Queen, PieceColor::Black) => black_queen += 1,
                        (PieceType::Pawn, _) => {},
                        (_, PieceColor::White) => white_other_pieces += 1,
                        (_, PieceColor::Black) => black_other_pieces += 1,
                    }
                } else {
                    proof {
                        assert(!king_at(board, i as int, j as int, PieceColor::White));
                        assert(!king_at(board, i as int, j as int, PieceColor::Black));
                    }
                }
                j += 1;
            }
            i += 1;
        }
        let is_endgame = (white_queen == 0 || white_other_pieces <= 1) && (black_queen == 0
            || black_other_pieces <= 1);
        (white_king, black_king, is_endgame)
    }

    /// Scores the board as it stands: the sum of the values of its pieces
    /// in the given phase of the game.
    pub fn evaluate_static(&self, is_endgame: bool) -> (score: Score)
        requires
            self.wf(),
        ensures
            score == static_score(self.board, is_endgame),
    {
        let mut score: Score = 0;
        let ghost f = value_in(is_endgame);
        let ghost bound = 10_000_500int;
        let mut i: usize = 0;
        while i < 8
            invariant
                i <= 8,
                self.wf(),
                f == value_in(is_endgame),
                bound == 10_000_500,
                score == board_sum(self.board, f, i as int),
                -(8 * i * bound) <= score <= 8 * i * bound,
            decreases 8 - i,
        {
            let ghost file = self.board[i as int];
            let ghost before = score;
            let mut j: usize = 0;
            while j < 8
                invariant
                    i < 8,
                    j <= 8,
                    self.wf(),
                    f == value_in(is_endgame),
                    bound == 10_000_500,
                    file == self.board[i as int],
                    score == before + file_sum(file, f, j as int),
                    -(8 * i * bound) <= before <= 8 * i * bound,
                    -(j * bound) <= score - before <= j * bound,
                decreases 8 - j,
            {
                if let Some(x) = self.board[i][j] {
                    assert(on_board(i as int, j as int));
                    score += x.value(is_endgame);
                }
                j += 1;
            }
            i += 1;
        }
        score
    }
}

} // verus!
