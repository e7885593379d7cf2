//! Pieces: their value on a square and the moves their type allows.

use vstd::prelude::*;
use crate::common::{on_board, Move, Position, Score, SCALE};
use crate::move_laws::{all_pseudo_legal, lemma_moves_pseudo_legal};
use crate::piece_square_tables::{
    lemma_table_bounds, TABLE_BISHOP, TABLE_KING_END_GAME, TABLE_KING_MIDDLE_GAME, TABLE_KNIGHT,
    TABLE_PAWN, TABLE_QUEEN, TABLE_ROOK,
};

verus! {

#[derive(Debug, Clone, Copy, PartialEq, Eq, Hash, Structural)]
pub enum PieceColor {
    White,
    Black,
}

#[derive(Debug, Clone, Copy, PartialEq, Eq, Hash, Structural)]
pub enum PieceType {
    King,
    Queen,
    Bishop,
    Knight,
    Rook,
    Pawn,
}

/// A piece together with the square it stands on.
#[derive(Debug, Clone, Copy, PartialEq, Eq, Hash, Structural)]
pub struct Piece {
    pub piece_color: PieceColor,
    pub piece_type: PieceType,
    pub x: i8,
    pub y: i8,
}

/// The board: `board[x][y]` is what stands on file `x`, rank `y`.
pub type Board = [[Option<Piece>; 8]; 8];

impl PieceColor {
    /// The other color.
    pub open spec fn opponent(self) -> PieceColor {
        match self {
            PieceColor::White => PieceColor::Black,
            PieceColor::Black => PieceColor::White,
        }
    }
}

/// Material value of a piece type, in points.
pub open spec fn material(piece_type: PieceType) -> int {
    match piece_type {
        PieceType::King => 1_000_000,
        PieceType::Queen => 900,
        PieceType::Rook => 500,
        PieceType::Bishop => 330,
        PieceType::Knight => 320,
        PieceType::Pawn => 100,
    }
}

/// Positional bonus, in points, of a piece type on row `row`, column `col`
/// of its table. The king reads one of two tables, by the phase of the game.
pub open spec fn table_bonus(piece_type: PieceType, is_endgame: bool, row: int, col: int) -> int {
    match piece_type {
        PieceType::King => if is_endgame {
            TABLE_KING_END_GAME[row][col] as int
        } else {
            TABLE_KING_MIDDLE_GAME[row][col] as int
        },
        PieceType::Queen => TABLE_QUEEN[row][col] as int,
        PieceType::Rook => TABLE_ROOK[row][col] as int,
        PieceType::Bishop => TABLE_BISHOP[row][col] as int,
        PieceType::Knight => TABLE_KNIGHT[row][col] as int,
        PieceType::Pawn => TABLE_PAWN[row][col] as int,
    }
}

impl Piece {
    /// Whether the piece stands on a square of the board.
    pub open spec fn wf(&self) -> bool {
        on_board(self.x as int, self.y as int)
    }

    /// The square the piece stands on.
    pub open spec fn position(&self) -> Position {
        Position(self.x, self.y)
    }

    /// Row of the piece's square in a piece-square table: each color reads
    /// the tables from its own side.
    pub open spec fn table_row(&self) -> int {
        match self.piece_color {
            PieceColor::White => 7 - self.y,
            PieceColor::Black => self.y as int,
        }
    }

    /// The value of the piece in score units: material plus positional
    /// bonus, positive for White and negative for Black.
    pub open spec fn spec_value(&self, is_endgame: bool) -> int {
        let points = material(self.piece_type) + table_bonus(
            self.piece_type,
            is_endgame,
            self.table_row(),
            self.x as int,
        );
        match self.piece_color {
            PieceColor::White => points * SCALE,
            PieceColor::Black => -(points * SCALE),
        }
    }

    fn table_position(&self) -> (r: (usize, usize))
        requires
            self.wf(),
        ensures
            r.0 == self.table_row(),
            r.1 == self.x,
            r.0 < 8,
            r.1 < 8,
    {
        match self.piece_color {
            PieceColor::White => ((7 - self.y) as usize, self.x as usize),
            PieceColor::Black => (self.y as usize, self.x as usize),
        }
    }

    /// Value of the piece in score units.
    pub fn value(&self, is_endgame: bool) -> (r: Score)
        requires
            self.wf(),
        ensures
            r == self.spec_value(is_endgame),
            -(1_000_050 * SCALE) <= r <= 1_000_050 * SCALE,
    {
        let (row, col) = self.table_position();
        proof {
            lemma_table_bounds(row as int, col as int);
        }
        let points: i64 = match self.piece_type {
            PieceType::King => {
                if is_endgame {
                    1_000_000 + TABLE_KING_END_GAME[row][col] as i64
                } else {
                    1_000_000 + TABLE_KING_MIDDLE_GAME[row][col] as i64
                }
            },
            PieceType::Queen => 900 + TABLE_QUEEN[row][col] as i64,
            PieceType::Rook => 500 + TABLE_ROOK[row][col] as i64,
            PieceType::Bishop => 330 + TABLE_BISHOP[row][col] as i64,
            PieceType::Knight => 320 + TABLE_KNIGHT[row][col] as i64,
            PieceType::Pawn => 100 + TABLE_PAWN[row][col] as i64,
        };
        match self.piece_color {
            PieceColor::White => points * SCALE,
            PieceColor::Black => -(points * SCALE),
        }
    }

    /// Puts the piece on file `x`, rank `y`.
    pub fn move_piece(&mut self, x: i8, y: i8)
        ensures
            *final(self) == (Piece { x, y, ..*old(self) }),
    {
        self.x = x;
        self.y = y;
    }
}


/// The coordinate reached from `c` after `k` steps in direction `d`, where a
/// direction is -1, 0 or 1.
pub open spec fn along(c: int, d: int, k: int) -> int {
    if d > 0 {
        c + k
    } else if d < 0 {
        c - k
    } else {
        c
    }
}

/// The eight steps of a king, in the order in which its moves are listed.
pub const KING_STEPS: [(i8, i8); 8] = [
    (-1, -1),
    (-1, 0),
    (-1, 1),
    (0, -1),
    (0, 1),
    (1, -1),
    (1, 0),
    (1, 1),
];

/// The eight jumps of a knight, in the order in which its moves are listed.
pub const KNIGHT_STEPS: [(i8, i8); 8] = [
    (-2, -1),
    (-2, 1),
    (-1, -2),
    (-1, 2),
    (1, -2),
    (1, 2),
    (2, -1),
    (2, 1),
];

/// The rank on which the king and rooks of a color start.
pub open spec fn home_rank(color: PieceColor) -> int {
    match color {
        PieceColor::White => 0,
        PieceColor::Black => 7,
    }
}

/// The direction in which the pawns of a color advance.
pub open spec fn forward(color: PieceColor) -> int {
    match color {
        PieceColor::White => 1,
        PieceColor::Black => -1,
    }
}

/// The rank on which the pawns of a color start: the one next to the home
/// rank, in the direction of advance.
pub open spec fn pawn_rank(color: PieceColor) -> int {
    home_rank(color) + forward(color)
}

/// Whether a square of the board holds a piece.
pub open spec fn occupied(board: Board, x: int, y: int) -> bool {
    board[x][y] is Some
}

impl Piece {
    /// Whether the piece may move onto file `x`, rank `y`: the square is on
    /// the board and holds no piece of the same color.
    pub open spec fn legal(&self, x: int, y: int, board: Board) -> bool {
        on_board(x, y) && match board[x][y] {
            Some(piece) => piece.piece_color != self.piece_color,
            None => true,
        }
    }

    /// The move of this piece to file `x`, rank `y`.
    pub open spec fn move_to(&self, x: int, y: int) -> Move {
        (self.position(), Position(x as i8, y as i8))
    }

    /// Number of squares that the piece reaches by sliding in direction
    /// (`dx`, `dy`), counted from the `k`-th square of the ray: the slide
    /// goes on over empty squares, takes in a square held by the other
    /// color and ends there, and ends before a square of its own color or
    /// the edge of the board.
    pub open spec fn ray_reach(&self, board: Board, dx: int, dy: int, k: int) -> int
        decreases 8 - k,
    {
        let x = along(self.x as int, dx, k);
        let y = along(self.y as int, dy, k);
        if k >= 8 || !self.legal(x, y, board) {
            0
        } else if occupied(board, x, y) {
            1
        } else {
            1 + self.ray_reach(board, dx, dy, k + 1)
        }
    }

    /// The move to the `k`-th square of the ray in direction (`dx`, `dy`).
    pub open spec fn ray_move(&self, dx: int, dy: int, k: int) -> Move {
        self.move_to(along(self.x as int, dx, k), along(self.y as int, dy, k))
    }

    /// The sliding moves in direction (`dx`, `dy`), nearest square first.
    pub open spec fn ray_moves(&self, board: Board, dx: int, dy: int) -> Seq<Move> {
        Seq::new(
            self.ray_reach(board, dx, dy, 1) as nat,
            |i: int| self.ray_move(dx, dy, i + 1),
        )
    }

    /// The moves of a rook: its four rays.
    pub open spec fn rook_moves(&self, board: Board) -> Seq<Move> {
        self.ray_moves(board, 1, 0) + self.ray_moves(board, -1, 0) + self.ray_moves(board, 0, 1)
            + self.ray_moves(board, 0, -1)
    }

    /// The moves of a bishop: its four rays.
    pub open spec fn bishop_moves(&self, board: Board) -> Seq<Move> {
        self.ray_moves(board, 1, 1) + self.ray_moves(board, 1, -1) + self.ray_moves(board, -1, 1)
            + self.ray_moves(board, -1, -1)
    }

    /// The moves of a queen: those of a rook, then those of a bishop.
    pub open spec fn queen_moves(&self, board: Board) -> Seq<Move> {
        self.rook_moves(board) + self.bishop_moves(board)
    }

    /// The moves by one of the given steps whose target the piece may
    /// enter, in the order of the steps.
    pub open spec fn step_moves(&self, board: Board, steps: Seq<(i8, i8)>) -> Seq<Move>
        decreases steps.len(),
    {
        if steps.len() == 0 {
            Seq::empty()
        } else {
            let rest = self.step_moves(board, steps.drop_last());
            let x = self.x + steps.last().0;
            let y = self.y + steps.last().1;
            if self.legal(x, y, board) {
                rest.push(self.move_to(x, y))
            } else {
                rest
            }
        }
    }

    /// Whether the king may castle with the rook of file `rook_file` (0 or
    /// 7): the king stands on its home square, a rook of its color stands
    /// in that corner, and the squares between them are empty. Neither
    /// earlier moves of the two pieces nor attacks on the king's path are
    /// looked at.
    pub open spec fn may_castle(&self, board: Board, rook_file: int) -> bool {
        let row = home_rank(self.piece_color);
        &&& self.x == 4
        &&& self.y == row
        &&& board[rook_file][row] matches Some(piece)
        &&& piece.piece_type == PieceType::Rook
        &&& piece.piece_color == self.piece_color
        &&& forall|file: int|
            (rook_file < file < 4 || 4 < file < rook_file) ==> !occupied(board, file, row)
    }

    /// The moves of a king: its steps, then castling towards file 0, then
    /// castling towards file 7.
    pub open spec fn king_moves(&self, board: Board) -> Seq<Move> {
        self.step_moves(board, KING_STEPS@) + (if self.may_castle(board, 0) {
            seq![self.move_to(self.x - 2, self.y as int)]
        } else {
            Seq::empty()
        }) + (if self.may_castle(board, 7) {
            seq![self.move_to(self.x + 2, self.y as int)]
        } else {
            Seq::empty()
        })
    }

    /// The moves of a knight.
    pub open spec fn knight_moves(&self, board: Board) -> Seq<Move> {
        self.step_moves(board, KNIGHT_STEPS@)
    }

    /// The capture of a pawn towards file `x + dx`: only onto a square
    /// held by the other color.
    pub open spec fn pawn_capture(&self, board: Board, dx: int) -> Seq<Move> {
        let x = self.x + dx;
        let y = self.y + forward(self.piece_color);
        if self.legal(x, y, board) && occupied(board, x, y) {
            seq![self.move_to(x, y)]
        } else {
            Seq::empty()
        }
    }

    /// The pushes of a pawn: one square forward onto an empty square, and
    /// from the starting rank a second square if that is empty too.
    pub open spec fn pawn_pushes(&self, board: Board) -> Seq<Move> {
        let dir = forward(self.piece_color);
        let x = self.x as int;
        if on_board(x, self.y + dir) && !occupied(board, x, self.y + dir) {
            if self.y == pawn_rank(self.piece_color) && on_board(x, self.y + 2 * dir) && !occupied(
                board,
                x,
                self.y + 2 * dir,
            ) {
                seq![self.move_to(x, self.y + dir), self.move_to(x, self.y + 2 * dir)]
            } else {
                seq![self.move_to(x, self.y + dir)]
            }
        } else {
            Seq::empty()
        }
    }

    /// The moves of a pawn: the capture towards the lower file, the capture
    /// towards the higher file, then the pushes.
    pub open spec fn pawn_moves(&self, board: Board) -> Seq<Move> {
        self.pawn_capture(board, -1) + self.pawn_capture(board, 1) + self.pawn_pushes(board)
    }

    /// The pseudo-legal moves of the piece on `board`, in the order in
    /// which they are generated.
    pub open spec fn moves(&self, board: Board) -> Seq<Move> {
        match self.piece_type {
            PieceType::King => self.king_moves(board),
            PieceType::Queen => self.queen_moves(board),
            PieceType::Rook => self.rook_moves(board),
            PieceType::Bishop => self.bishop_moves(board),
            PieceType::Knight => self.knight_moves(board),
            PieceType::Pawn => self.pawn_moves(board),
        }
    }

    fn is_legal(&self, x: i8, y: i8, board: &Board) -> (r: bool)
        ensures
            r == self.legal(x as int, y as int, *board),
    {
        if x < 0 || x >= 8 || y < 0 || y >= 8 {
            return false;
        }
        match board[x as usize][y as usize] {
            Some(piece) => self.piece_color != piece.piece_color,
            None => true,
        }
    }

    fn is_capture(&self, x: i8, y: i8, board: &Board) -> (r: bool)
        requires
            on_board(x as int, y as int),
        ensures
            r == occupied(*board, x as int, y as int),
    {
        board[x as usize][y as usize].is_some()
    }

    fn generate_consecutive_moves(
        &self,
        board: &Board,
        dx: i8,
        dy: i8,
        legal_moves: &mut Vec<Move>,
    )
        requires
            self.wf(),
            -1 <= dx <= 1,
            -1 <= dy <= 1,
        ensures
            final(legal_moves)@ == old(legal_moves)@ + self.ray_moves(*board, dx as int, dy as int),
    {
        let ghost before = legal_moves@;
        let ghost reach = self.ray_reach(*board, dx as int, dy as int, 1);
        let mut k: i8 = 1;
        let mut x: i8 = self.x + dx;
        let mut y: i8 = self.y + dy;
        let mut sliding = true;
        let ghost mut n: int = 0;
        while sliding && k < 8
            invariant
                self.wf(),
                -1 <= dx <= 1,
                -1 <= dy <= 1,
                1 <= k <= 8,
                0 <= n < 8,
                x == along(self.x as int, dx as int, k as int),
                y == along(self.y as int, dy as int, k as int),
                reach == self.ray_reach(*board, dx as int, dy as int, 1),
                sliding ==> n == k - 1 && reach == n + self.ray_reach(
                    *board,
                    dx as int,
                    dy as int,
                    k as int,
                ),
                !sliding ==> reach == n,
                legal_moves@ == before + Seq::new(
                    n as nat,
                    |i: int| self.ray_move(dx as int, dy as int, i + 1),
                ),
            decreases (if sliding { 1int } else { 0int }), 8 - k,
        {
            if !self.is_legal(x, y, board) {
                sliding = false;
            } else {
                legal_moves.push((Position(self.x, self.y), Position(x, y)));
                proof {
                    assert(legal_moves@ =~= before + Seq::new(
                        (n + 1) as nat,
                        |i: int| self.ray_move(dx as int, dy as int, i + 1),
                    ));
                    n = n + 1;
                }
                if self.is_capture(x, y, board) {
                    sliding = false;
                } else {
                    x = x + dx;
                    y = y + dy;
                    k = k + 1;
                }
            }
        }
    }

    fn generate_rook_moves(&self, board: &Board) -> (r: Vec<Move>)
        requires
            self.wf(),
        ensures
            r@ == self.rook_moves(*board),
    {
        let mut legal_moves: Vec<Move> = Vec::new();
        self.generate_consecutive_moves(board, 1, 0, &mut legal_moves);
        self.generate_consecutive_moves(board, -1, 0, &mut legal_moves);
        self.generate_consecutive_moves(board, 0, 1, &mut legal_moves);
        self.generate_consecutive_moves(board, 0, -1, &mut legal_moves);
        legal_moves
    }

    fn generate_bishop_moves(&self, board: &Board) -> (r: Vec<Move>)
        requires
            self.wf(),
        ensures
            r@ == self.bishop_moves(*board),
    {
        let mut legal_moves: Vec<Move> = Vec::new();
        self.generate_consecutive_moves(board, 1, 1, &mut legal_moves);
        self.generate_consecutive_moves(board, 1, -1, &mut legal_moves);
        self.generate_consecutive_moves(board, -1, 1, &mut legal_moves);
        self.generate_consecutive_moves(board, -1, -1, &mut legal_moves);
        legal_moves
    }

    fn generate_queen_moves(&self, board: &Board) -> (r: Vec<Move>)
        requires
            self.wf(),
        ensures
            r@ == self.queen_moves(*board),
    {
        let mut legal_moves = self.generate_rook_moves(board);
        let mut diagonal = self.generate_bishop_moves(board);
        legal_moves.append(&mut diagonal);
        legal_moves
    }

    fn generate_step_moves(&self, board: &Board, steps: &[(i8, i8); 8]) -> (r: Vec<Move>)
        requires
            self.wf(),
            forall|i: int| 0 <= i < 8 ==> -2 <= (#[trigger] steps[i]).0 <= 2 && -2 <= steps[i].1 <= 2,
        ensures
            r@ == self.step_moves(*board, steps@),
    {
        let mut legal_moves: Vec<Move> = Vec::new();
        let mut i: usize = 0;
        while i < 8
            invariant
                self.wf(),
                i <= 8,
                forall|i: int|
                    0 <= i < 8 ==> -2 <= (#[trigger] steps[i]).0 <= 2 && -2 <= steps[i].1 <= 2,
                legal_moves@ == self.step_moves(*board, steps@.take(i as int)),
            decreases 8 - i,
        {
            let (dx, dy) = steps[i];
            proof {
                assert(steps@.take(i + 1).drop_last() =~= steps@.take(i as int));
            }
            if self.is_legal(self.x + dx, self.y + dy, board) {
                legal_moves.push((Position(self.x, self.y), Position(self.x + dx, self.y + dy)));
            }
            i += 1;
        }
        proof {
            assert(steps@.take(8) =~= steps@);
        }
        legal_moves
    }

    fn can_castle(&self, board: &Board, rook_file: usize) -> (r: bool)
        requires
            rook_file == 0 || rook_file == 7,
        ensures
            r == self.may_castle(*board, rook_file as int),
    {
        let row: usize = match self.piece_color {
            PieceColor::White => 0,
            PieceColor::Black => 7,
        };
        if !(self.x == 4 && self.y == row as i8) {
            return false;
        }
        let rook_ready = match board[rook_file][row] {
            Some(piece) => piece.piece_type == PieceType::Rook && piece.piece_color
                == self.piece_color,
            None => false,
        };
        proof {
            let rank = row as int;
            assert(occupied(*board, 1, rank) == (board[1][rank] is Some));
            assert(occupied(*board, 2, rank) == (board[2][rank] is Some));
            assert(occupied(*board, 3, rank) == (board[3][rank] is Some));
            assert(occupied(*board, 5, rank) == (board[5][rank] is Some));
            assert(occupied(*board, 6, rank) == (board[6][rank] is Some));
        }
        if rook_file == 0 {
            rook_ready && board[1][row].is_none() && board[2][row].is_none()
                && board[3][row].is_none()
        } else {
            rook_ready && board[6][row].is_none() && board[5][row].is_none()
        }
    }

    fn generate_king_moves(&self, board: &Board) -> (r: Vec<Move>)
        requires
            self.wf(),
        ensures
            r@ == self.king_moves(*board),
    {
        let mut legal_moves = self.generate_step_moves(board, &KING_STEPS);
        if self.can_castle(board, 0) {
            legal_moves.push((Position(self.x, self.y), Position(self.x - 2, self.y)));
        }
        if self.can_castle(board, 7) {
            legal_moves.push((Position(self.x, self.y), Position(self.x + 2, self.y)));
        }
        legal_moves
    }

    fn generate_knight_moves(&self, board: &Board) -> (r: Vec<Move>)
        requires
            self.wf(),
        ensures
            r@ == self.knight_moves(*board),
    {
        self.generate_step_moves(board, &KNIGHT_STEPS)
    }

    fn generate_pawn_moves(&self, board: &Board) -> (r: Vec<Move>)
        requires
            self.wf(),
        ensures
            r@ == self.pawn_moves(*board),
    {
        let mut legal_moves: Vec<Move> = Vec::new();
        let direction: i8 = match self.piece_color {
            PieceColor::White => 1,
            PieceColor::Black => -1,
        };
        let start: i8 = match self.piece_color {
            PieceColor::White => 1,
            PieceColor::Black => 6,
        };
        let y: i8 = self.y + direction;
        if self.is_legal(self.x - 1, y, board) && self.is_capture(self.x - 1, y, board) {
            legal_moves.push((Position(self.x, self.y), Position(self.x - 1, y)));
        }
        if self.is_legal(self.x + 1, y, board) && self.is_capture(self.x + 1, y, board) {
            legal_moves.push((Position(self.x, self.y), Position(self.x + 1, y)));
        }
        if self.is_legal(self.x, y, board) && !self.is_capture(self.x, y, board) {
            legal_moves.push((Position(self.x, self.y), Position(self.x, y)));
            let far: i8 = y + direction;
            if self.y == start && self.is_legal(self.x, far, board) && !self.is_capture(
                self.x,
                far,
                board,
            ) {
                legal_moves.push((Position(self.x, self.y), Position(self.x, far)));
            }
        }
        proof {
            assert(legal_moves@ =~= self.pawn_moves(*board));
        }
        legal_moves
    }

    /// Lists the pseudo-legal moves of the piece on `board`: every move
    /// that its type allows onto a square of the board that holds no piece
    /// of its own color. Whether the move exposes the king is not looked at.
    pub fn generate_legal_moves(&self, board: Board) -> (r: Vec<Move>)
        requires
            self.wf(),
        ensures
            r@ == self.moves(board),
            all_pseudo_legal(*self, board, r@),
    {
        proof {
            lemma_moves_pseudo_legal(*self, board);
        }
        match self.piece_type {
            PieceType::King => self.generate_king_moves(&board),
            PieceType::Queen => self.generate_queen_moves(&board),
            PieceType::Rook => self.generate_rook_moves(&board),
            PieceType::Bishop => self.generate_bishop_moves(&board),
            PieceType::Knight => self.generate_knight_moves(&board),
            PieceType::Pawn => self.generate_pawn_moves(&board),
        }
    }
}

} // verus!
