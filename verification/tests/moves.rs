use chess_engine::common::{Move, Position};
use chess_engine::game_state::GameState;
use chess_engine::piece::{Board, Piece, PieceColor, PieceType};
use chess_engine::create_physical_board::create_pieces;

fn piece(color: PieceColor, kind: PieceType, x: i8, y: i8) -> Piece {
    Piece { piece_color: color, piece_type: kind, x, y }
}

fn board_of(pieces: &[Piece]) -> Board {
    let mut board: Board = [[None; 8]; 8];
    for p in pieces {
        board[p.x as usize][p.y as usize] = Some(*p);
    }
    board
}

fn state_of(pieces: &[Piece], now_moves: PieceColor) -> GameState {
    GameState { board: board_of(pieces), now_moves, player_moves: false }
}

fn mv(fx: i8, fy: i8, tx: i8, ty: i8) -> Move {
    (Position(fx, fy), Position(tx, ty))
}

fn targets(moves: &[Move]) -> Vec<(i8, i8)> {
    moves.iter().map(|m| (m.1 .0, m.1 .1)).collect()
}

#[test]
fn rook_takes_the_pawn_two_squares_ahead_and_goes_no_further() {
    let rook = piece(PieceColor::White, PieceType::Rook, 0, 0);
    let pawn = piece(PieceColor::Black, PieceType::Pawn, 0, 2);
    let moves = rook.generate_legal_moves(board_of(&[rook, pawn]));
    assert!(moves.contains(&mv(0, 0, 0, 1)));
    assert!(moves.contains(&mv(0, 0, 0, 2)));
    for y in 3..8 {
        assert!(!moves.contains(&mv(0, 0, 0, y)));
    }
    assert_eq!(
        targets(&moves),
        vec![(1, 0), (2, 0), (3, 0), (4, 0), (5, 0), (6, 0), (7, 0), (0, 1), (0, 2)]
    );
}

#[test]
fn rook_stops_before_a_piece_of_its_own_color() {
    let rook = piece(PieceColor::White, PieceType::Rook, 0, 0);
    let pawn = piece(PieceColor::White, PieceType::Pawn, 0, 2);
    let knight = piece(PieceColor::White, PieceType::Knight, 1, 0);
    let moves = rook.generate_legal_moves(board_of(&[rook, pawn, knight]));
    assert_eq!(moves, vec![mv(0, 0, 0, 1)]);
}

#[test]
fn rook_on_an_empty_board_runs_to_every_edge() {
    let rook = piece(PieceColor::Black, PieceType::Rook, 3, 3);
    let moves = rook.generate_legal_moves(board_of(&[rook]));
    assert_eq!(
        targets(&moves),
        vec![
            (4, 3), (5, 3), (6, 3), (7, 3),
            (2, 3), (1, 3), (0, 3),
            (3, 4), (3, 5), (3, 6), (3, 7),
            (3, 2), (3, 1), (3, 0),
        ]
    );
    assert!(moves.iter().all(|m| m.0 == Position(3, 3)));
}

#[test]
fn bishop_slides_along_its_four_diagonals_in_order() {
    let bishop = piece(PieceColor::White, PieceType::Bishop, 2, 1);
    let enemy = piece(PieceColor::Black, PieceType::Knight, 4, 3);
    let friend = piece(PieceColor::White, PieceType::Pawn, 0, 3);
    let moves = bishop.generate_legal_moves(board_of(&[bishop, enemy, friend]));
    assert_eq!(targets(&moves), vec![(3, 2), (4, 3), (3, 0), (1, 2), (1, 0)]);
}

#[test]
fn queen_moves_are_the_rook_moves_followed_by_the_bishop_moves() {
    let board = board_of(&[
        piece(PieceColor::White, PieceType::Queen, 3, 3),
        piece(PieceColor::Black, PieceType::Pawn, 3, 5),
        piece(PieceColor::White, PieceType::Pawn, 5, 5),
        piece(PieceColor::Black, PieceType::Pawn, 1, 1),
    ]);
    let queen = piece(PieceColor::White, PieceType::Queen, 3, 3);
    let rook = piece(PieceColor::White, PieceType::Rook, 3, 3);
    let bishop = piece(PieceColor::White, PieceType::Bishop, 3, 3);
    let mut expected = rook.generate_legal_moves(board);
    expected.extend(bishop.generate_legal_moves(board));
    let moves = queen.generate_legal_moves(board);
    assert_eq!(moves, expected);
    assert_eq!(moves.len(), 12 + 9);
    assert!(moves.contains(&mv(3, 3, 3, 5)));
    assert!(!moves.contains(&mv(3, 3, 3, 6)));
    assert!(moves.contains(&mv(3, 3, 4, 4)));
    assert!(!moves.contains(&mv(3, 3, 5, 5)));
    assert!(moves.contains(&mv(3, 3, 1, 1)));
    assert!(!moves.contains(&mv(3, 3, 0, 0)));
}

#[test]
fn knight_in_the_center_has_its_eight_jumps_in_order() {
    let knight = piece(PieceColor::White, PieceType::Knight, 3, 3);
    let moves = knight.generate_legal_moves(board_of(&[knight]));
    assert_eq!(
        targets(&moves),
        vec![(1, 2), (1, 4), (2, 1), (2, 5), (4, 1), (4, 5), (5, 2), (5, 4)]
    );
}

#[test]
fn knight_in_the_corner_has_two_jumps_and_skips_its_own_pieces() {
    let knight = piece(PieceColor::Black, PieceType::Knight, 7, 7);
    let moves = knight.generate_legal_moves(board_of(&[knight]));
    assert_eq!(targets(&moves), vec![(5, 6), (6, 5)]);
    let friend = piece(PieceColor::Black, PieceType::Pawn, 5, 6);
    let enemy = piece(PieceColor::White, PieceType::Pawn, 6, 5);
    let moves = knight.generate_legal_moves(board_of(&[knight, friend, enemy]));
    assert_eq!(targets(&moves), vec![(6, 5)]);
}

#[test]
fn king_in_the_center_steps_to_its_eight_neighbours_in_order() {
    let king = piece(PieceColor::White, PieceType::King, 4, 4);
    let moves = king.generate_legal_moves(board_of(&[king]));
    assert_eq!(
        targets(&moves),
        vec![(3, 3), (3, 4), (3, 5), (4, 3), (4, 5), (5, 3), (5, 4), (5, 5)]
    );
}

#[test]
fn king_never_steps_onto_its_own_square() {
    let king = piece(PieceColor::White, PieceType::King, 4, 4);
    let empty: Board = [[None; 8]; 8];
    let moves = king.generate_legal_moves(empty);
    assert_eq!(moves.len(), 8);
    assert!(!moves.contains(&mv(4, 4, 4, 4)));
}

#[test]
fn king_on_its_home_square_may_castle_to_both_sides() {
    let king = piece(PieceColor::White, PieceType::King, 4, 0);
    let board = board_of(&[
        king,
        piece(PieceColor::White, PieceType::Rook, 0, 0),
        piece(PieceColor::White, PieceType::Rook, 7, 0),
    ]);
    let moves = king.generate_legal_moves(board);
    assert_eq!(
        targets(&moves),
        vec![(3, 0), (3, 1), (4, 1), (5, 0), (5, 1), (2, 0), (6, 0)]
    );
}

#[test]
fn black_king_castles_on_the_last_rank() {
    let king = piece(PieceColor::Black, PieceType::King, 4, 7);
    let board = board_of(&[king, piece(PieceColor::Black, PieceType::Rook, 7, 7)]);
    let moves = king.generate_legal_moves(board);
    assert_eq!(
        targets(&moves),
        vec![(3, 6), (3, 7), (4, 6), (5, 6), (5, 7), (6, 7)]
    );
}

#[test]
fn castling_needs_empty_squares_between_king_and_rook() {
    let king = piece(PieceColor::White, PieceType::King, 4, 0);
    let board = board_of(&[
        king,
        piece(PieceColor::White, PieceType::Rook, 0, 0),
        piece(PieceColor::White, PieceType::Rook, 7, 0),
        piece(PieceColor::White, PieceType::Knight, 1, 0),
        piece(PieceColor::Black, PieceType::Bishop, 6, 0),
    ]);
    let moves = king.generate_legal_moves(board);
    assert!(!moves.contains(&mv(4, 0, 2, 0)));
    assert!(!moves.contains(&mv(4, 0, 6, 0)));
}

#[test]
fn castling_needs_a_rook_of_the_kings_color_in_the_corner() {
    let king = piece(PieceColor::White, PieceType::King, 4, 0);
    let board = board_of(&[
        king,
        piece(PieceColor::Black, PieceType::Rook, 0, 0),
        piece(PieceColor::White, PieceType::Bishop, 7, 0),
    ]);
    let moves = king.generate_legal_moves(board);
    assert!(!moves.contains(&mv(4, 0, 2, 0)));
    assert!(!moves.contains(&mv(4, 0, 6, 0)));
    let away = piece(PieceColor::White, PieceType::King, 4, 1);
    let board = board_of(&[
        away,
        piece(PieceColor::White, PieceType::Rook, 0, 0),
        piece(PieceColor::White, PieceType::Rook, 7, 0),
    ]);
    let moves = away.generate_legal_moves(board);
    assert_eq!(moves.len(), 8);
}

#[test]
fn castling_looks_at_nothing_but_the_squares() {
    // The king has moved away and come back, the rook is attacked, the
    // king's path is attacked: castling is listed all the same.
    let king = piece(PieceColor::White, PieceType::King, 4, 0);
    let board = board_of(&[
        king,
        piece(PieceColor::White, PieceType::Rook, 7, 0),
        piece(PieceColor::Black, PieceType::Rook, 5, 7),
        piece(PieceColor::Black, PieceType::Rook, 7, 7),
    ]);
    let moves = king.generate_legal_moves(board);
    assert!(moves.contains(&mv(4, 0, 6, 0)));
}

#[test]
fn pawns_push_one_or_two_squares_from_their_starting_rank() {
    let white = piece(PieceColor::White, PieceType::Pawn, 3, 1);
    assert_eq!(
        white.generate_legal_moves(board_of(&[white])),
        vec![mv(3, 1, 3, 2), mv(3, 1, 3, 3)]
    );
    let black = piece(PieceColor::Black, PieceType::Pawn, 3, 6);
    assert_eq!(
        black.generate_legal_moves(board_of(&[black])),
        vec![mv(3, 6, 3, 5), mv(3, 6, 3, 4)]
    );
}

#[test]
fn pawns_push_one_square_off_their_starting_rank() {
    let white = piece(PieceColor::White, PieceType::Pawn, 3, 2);
    assert_eq!(white.generate_legal_moves(board_of(&[white])), vec![mv(3, 2, 3, 3)]);
    let black = piece(PieceColor::Black, PieceType::Pawn, 3, 1);
    assert_eq!(black.generate_legal_moves(board_of(&[black])), vec![mv(3, 1, 3, 0)]);
    let white_on_black_rank = piece(PieceColor::White, PieceType::Pawn, 0, 6);
    assert_eq!(
        white_on_black_rank.generate_legal_moves(board_of(&[white_on_black_rank])),
        vec![mv(0, 6, 0, 7)]
    );
}

#[test]
fn pawn_on_the_last_rank_has_no_move() {
    let white = piece(PieceColor::White, PieceType::Pawn, 3, 7);
    assert!(white.generate_legal_moves(board_of(&[white])).is_empty());
    let black = piece(PieceColor::Black, PieceType::Pawn, 3, 0);
    assert!(black.generate_legal_moves(board_of(&[black])).is_empty());
}

#[test]
fn blocked_pawn_does_not_push() {
    let pawn = piece(PieceColor::White, PieceType::Pawn, 3, 1);
    let blocker = piece(PieceColor::Black, PieceType::Pawn, 3, 2);
    assert!(pawn.generate_legal_moves(board_of(&[pawn, blocker])).is_empty());
    let far = piece(PieceColor::White, PieceType::Knight, 3, 3);
    assert_eq!(pawn.generate_legal_moves(board_of(&[pawn, far])), vec![mv(3, 1, 3, 2)]);
}

#[test]
fn pawn_takes_diagonally_only_what_is_of_the_other_color() {
    let pawn = piece(PieceColor::White, PieceType::Pawn, 3, 3);
    let enemy = piece(PieceColor::Black, PieceType::Knight, 2, 4);
    let friend = piece(PieceColor::White, PieceType::Knight, 4, 4);
    assert_eq!(
        pawn.generate_legal_moves(board_of(&[pawn, enemy, friend])),
        vec![mv(3, 3, 2, 4), mv(3, 3, 3, 4)]
    );
    let both = piece(PieceColor::Black, PieceType::Rook, 4, 4);
    assert_eq!(
        pawn.generate_legal_moves(board_of(&[pawn, enemy, both])),
        vec![mv(3, 3, 2, 4), mv(3, 3, 4, 4), mv(3, 3, 3, 4)]
    );
    let behind = piece(PieceColor::Black, PieceType::Rook, 2, 2);
    assert_eq!(pawn.generate_legal_moves(board_of(&[pawn, behind])), vec![mv(3, 3, 3, 4)]);
}

#[test]
fn pawn_on_the_edge_file_takes_towards_the_board_only() {
    let pawn = piece(PieceColor::Black, PieceType::Pawn, 0, 4);
    let enemy = piece(PieceColor::White, PieceType::Pawn, 1, 3);
    assert_eq!(
        pawn.generate_legal_moves(board_of(&[pawn, enemy])),
        vec![mv(0, 4, 1, 3), mv(0, 4, 0, 3)]
    );
}

#[test]
fn no_generated_move_leaves_the_board_or_lands_on_the_movers_color() {
    let mut state = state_of(&[], PieceColor::White);
    create_pieces(&mut state);
    state.board[3][3] = Some(piece(PieceColor::White, PieceType::Queen, 3, 3));
    state.board[4][4] = Some(piece(PieceColor::Black, PieceType::Knight, 4, 4));
    state.board[0][4] = Some(piece(PieceColor::Black, PieceType::Rook, 0, 4));
    state.board[6][2] = Some(piece(PieceColor::White, PieceType::Bishop, 6, 2));
    let mut seen = 0;
    for x in 0..8 {
        for y in 0..8 {
            if let Some(p) = state.board[x][y] {
                for (from, to) in p.generate_legal_moves(state.board) {
                    seen += 1;
                    assert_eq!(from, Position(p.x, p.y));
                    assert!((0..8).contains(&to.0) && (0..8).contains(&to.1));
                    if let Some(other) = state.board[to.0 as usize][to.1 as usize] {
                        assert_ne!(other.piece_color, p.piece_color);
                    }
                }
            }
        }
    }
    assert!(seen > 40);
}

#[test]
fn starting_position_gives_white_its_twenty_moves_in_order() {
    let mut state = state_of(&[], PieceColor::White);
    create_pieces(&mut state);
    let moves = state.generate_legal_moves();
    assert_eq!(
        moves,
        vec![
            mv(0, 1, 0, 2), mv(0, 1, 0, 3),
            mv(1, 0, 0, 2), mv(1, 0, 2, 2),
            mv(1, 1, 1, 2), mv(1, 1, 1, 3),
            mv(2, 1, 2, 2), mv(2, 1, 2, 3),
            mv(3, 1, 3, 2), mv(3, 1, 3, 3),
            mv(4, 1, 4, 2), mv(4, 1, 4, 3),
            mv(5, 1, 5, 2), mv(5, 1, 5, 3),
            mv(6, 0, 5, 2), mv(6, 0, 7, 2),
            mv(6, 1, 6, 2), mv(6, 1, 6, 3),
            mv(7, 1, 7, 2), mv(7, 1, 7, 3),
        ]
    );
}

#[test]
fn starting_position_gives_black_its_twenty_moves() {
    let mut state = state_of(&[], PieceColor::Black);
    create_pieces(&mut state);
    let moves = state.generate_legal_moves();
    assert_eq!(moves.len(), 20);
    assert_eq!(moves[0], mv(0, 6, 0, 5));
    assert_eq!(moves[1], mv(0, 6, 0, 4));
    assert_eq!(moves[2], mv(1, 6, 1, 5));
    assert_eq!(moves[4], mv(1, 7, 0, 5));
    assert!(moves.iter().all(|m| m.0 .1 >= 6));
}

#[test]
fn only_the_color_to_move_moves() {
    let pieces = [
        piece(PieceColor::White, PieceType::King, 0, 0),
        piece(PieceColor::Black, PieceType::King, 7, 7),
    ];
    let white = state_of(&pieces, PieceColor::White).generate_legal_moves();
    assert_eq!(white, vec![mv(0, 0, 0, 1), mv(0, 0, 1, 0), mv(0, 0, 1, 1)]);
    let black = state_of(&pieces, PieceColor::Black).generate_legal_moves();
    assert_eq!(black, vec![mv(7, 7, 6, 6), mv(7, 7, 6, 7), mv(7, 7, 7, 6)]);
}

#[test]
fn captures_come_first_and_both_groups_keep_their_order() {
    // Rook on (0,0): quiet moves along the rank, then a capture on (0,2).
    // Knight on (3,3): a quiet jump, a capture on (1,4), more quiet jumps.
    let state = state_of(
        &[
            piece(PieceColor::White, PieceType::Rook, 0, 0),
            piece(PieceColor::White, PieceType::Pawn, 1, 0),
            piece(PieceColor::Black, PieceType::Pawn, 0, 2),
            piece(PieceColor::White, PieceType::Knight, 3, 3),
            piece(PieceColor::Black, PieceType::Pawn, 1, 4),
            piece(PieceColor::Black, PieceType::Pawn, 5, 4),
        ],
        PieceColor::White,
    );
    let moves = state.generate_legal_moves();
    assert_eq!(
        moves,
        vec![
            mv(0, 0, 0, 2),
            mv(3, 3, 1, 4),
            mv(3, 3, 5, 4),
            mv(0, 0, 0, 1),
            mv(1, 0, 1, 1),
            mv(3, 3, 1, 2),
            mv(3, 3, 2, 1),
            mv(3, 3, 2, 5),
            mv(3, 3, 4, 1),
            mv(3, 3, 4, 5),
            mv(3, 3, 5, 2),
        ]
    );
}

#[test]
fn a_side_without_pieces_has_no_moves() {
    let state = state_of(&[piece(PieceColor::Black, PieceType::King, 4, 7)], PieceColor::White);
    assert!(state.generate_legal_moves().is_empty());
}

#[test]
fn is_wf_tells_whether_pieces_know_their_squares() {
    let mut state = state_of(&[piece(PieceColor::White, PieceType::King, 4, 0)], PieceColor::White);
    assert!(state.is_wf());
    state.board[2][2] = Some(piece(PieceColor::White, PieceType::Pawn, 2, 3));
    assert!(!state.is_wf());
    state.board[2][2] = Some(piece(PieceColor::White, PieceType::Pawn, 2, 2));
    assert!(state.is_wf());
}
