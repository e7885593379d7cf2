//! The start of a game: the empty state, whose first turn is drawn or set
//! by the number of human players.

use vstd::prelude::*;
use crate::common::on_board;
use crate::game_state::GameState;
use crate::piece::{Board, Piece, PieceColor};

verus! {

/// Whether no square of the board holds a piece.
pub open spec fn empty_board(board: Board) -> bool {
    forall|x: int, y: int| on_board(x, y) ==> #[trigger] board[x][y] is None
}

/// Whether the first turn is the human player's: never with no human
/// player, always with two, and as the coin fell otherwise.
pub open spec fn first_turn(number_of_players: int, coin: bool) -> bool {
    if number_of_players == 0 {
        false
    } else if number_of_players == 2 {
        true
    } else {
        coin
    }
}

/// Calls `rand::random::<bool>`. Nothing is assumed of what it returns.
#[verifier::external_body]
fn random_bool() -> bool {
    rand::random::<bool>()
}

/// The state at the start of a game, before the pieces are set up: an
/// empty board and White to move. The first turn is the human player's
/// as `first_turn` says of the number of players and the coin.
pub fn new_game(number_of_players: i32, coin: bool) -> (r: GameState)
    ensures
        empty_board(r.board),
        r.wf(),
        r.now_moves == PieceColor::White,
        r.player_moves == first_turn(number_of_players as int, coin),
{
    let mut player_moves = coin;
    if number_of_players == 0 {
        player_moves = false;
    }
    if number_of_players == 2 {
        player_moves = true;
    }
    let empty: Option<Piece> = None;
    let file: [Option<Piece>; 8] = [empty; 8];
    let board: Board = [file; 8];
    assert forall|x: int, y: int| on_board(x, y) implies #[trigger] board[x][y] is None by {
        assert(board[x] == file);
        assert(file[y] == empty);
    }
    GameState { board, now_moves: PieceColor::White, player_moves }
}

/// Starts a game: an empty board, White to move, and the first turn drawn
/// at random where there is exactly one human player.
pub fn setup(number_of_players: i32) -> (r: GameState)
    ensures
        empty_board(r.board),
        r.wf(),
        r.now_moves == PieceColor::White,
        number_of_players == 0 ==> !r.player_moves,
        number_of_players == 2 ==> r.player_moves,
{
    let coin = random_bool();
    new_game(number_of_players, coin)
}

} // verus!
