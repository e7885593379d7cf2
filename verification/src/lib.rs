//! Decision core of a two-player chess-like board game: pseudo-legal move
//! generation, a piece-square static evaluator, a depth-limited alpha-beta
//! search with a memoization cache, and the selection of the move a
//! non-human player makes.

pub mod common;
pub mod piece_square_tables;
pub mod piece;
pub mod move_laws;
pub mod game_state;
pub mod search_cache;
pub mod search;
pub mod search_laws;
pub mod evaluation_laws;
pub mod turn;
pub mod computer_moves;
pub mod setup;
pub mod spawn_piece;
pub mod create_physical_board;
pub mod mouse_pressed;
pub mod program_options;
