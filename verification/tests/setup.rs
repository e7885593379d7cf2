use chess_engine::common::Position;
use chess_engine::game_state::GameState;
use chess_engine::common::{MousePosition, SelectedSquare};
use chess_engine::mouse_pressed::{mouse_pressed_system, ClickOutcome};
use chess_engine::piece::{Piece, PieceColor, PieceType};
use chess_engine::program_options::{
    parse_number, program_options, ProgramOptions, DEFAULT_DEPTH, DEFAULT_NUMBER_OF_PLAYERS,
};
use chess_engine::create_physical_board::create_pieces;
use chess_engine::setup::{new_game, setup};
use chess_engine::spawn_piece::spawn_piece;
use chess_engine::turn::AppliedMove;

fn args_of(words: &[&str]) -> Vec<String> {
    words.iter().map(|w| w.to_string()).collect()
}

fn started() -> GameState {
    let mut state = new_game(1, true);
    create_pieces(&mut state);
    state
}

#[test]
fn a_new_game_has_an_empty_board_and_white_to_move() {
    let state = new_game(1, false);
    assert!(state.board.iter().flatten().all(|square| square.is_none()));
    assert_eq!(state.now_moves, PieceColor::White);
    assert!(state.is_wf());
}

#[test]
fn the_first_turn_follows_the_number_of_players_and_the_coin() {
    assert!(!new_game(0, true).player_moves);
    assert!(!new_game(0, false).player_moves);
    assert!(new_game(2, true).player_moves);
    assert!(new_game(2, false).player_moves);
    assert!(new_game(1, true).player_moves);
    assert!(!new_game(1, false).player_moves);
    assert!(new_game(3, true).player_moves);
    assert!(!new_game(-1, false).player_moves);
}

#[test]
fn setup_draws_the_first_turn_only_for_one_player() {
    for _ in 0..20 {
        assert!(!setup(0).player_moves);
        assert!(setup(2).player_moves);
        let drawn = setup(1);
        assert_eq!(drawn.now_moves, PieceColor::White);
        assert!(drawn.board.iter().flatten().all(|square| square.is_none()));
    }
}

#[test]
fn spawn_piece_puts_a_piece_that_knows_its_square() {
    let mut state = new_game(2, true);
    spawn_piece(&mut state, Position(2, 5), PieceColor::Black, PieceType::Bishop);
    assert_eq!(
        state.board[2][5],
        Some(Piece { piece_color: PieceColor::Black, piece_type: PieceType::Bishop, x: 2, y: 5 })
    );
    assert_eq!(state.board.iter().flatten().filter(|s| s.is_some()).count(), 1);
    spawn_piece(&mut state, Position(2, 5), PieceColor::White, PieceType::Pawn);
    assert_eq!(
        state.board[2][5],
        Some(Piece { piece_color: PieceColor::White, piece_type: PieceType::Pawn, x: 2, y: 5 })
    );
    assert!(state.is_wf());
    assert!(state.player_moves);
}

#[test]
fn create_pieces_sets_up_sixteen_pieces_a_side() {
    let state = started();
    let back = [
        PieceType::Rook,
        PieceType::Knight,
        PieceType::Bishop,
        PieceType::Queen,
        PieceType::King,
        PieceType::Bishop,
        PieceType::Knight,
        PieceType::Rook,
    ];
    for x in 0..8usize {
        let file = x as i8;
        assert_eq!(
            state.board[x][0],
            Some(Piece { piece_color: PieceColor::White, piece_type: back[x], x: file, y: 0 })
        );
        assert_eq!(
            state.board[x][1],
            Some(Piece {
                piece_color: PieceColor::White,
                piece_type: PieceType::Pawn,
                x: file,
                y: 1
            })
        );
        assert_eq!(
            state.board[x][6],
            Some(Piece {
                piece_color: PieceColor::Black,
                piece_type: PieceType::Pawn,
                x: file,
                y: 6
            })
        );
        assert_eq!(
            state.board[x][7],
            Some(Piece { piece_color: PieceColor::Black, piece_type: back[x], x: file, y: 7 })
        );
        for y in 2..6 {
            assert_eq!(state.board[x][y], None);
        }
    }
    assert_eq!(state.stats(), (true, true, false));
    assert!(state.is_wf());
}

#[test]
fn create_pieces_leaves_the_middle_ranks_as_they_are() {
    let mut state = new_game(1, true);
    spawn_piece(&mut state, Position(3, 3), PieceColor::White, PieceType::Queen);
    spawn_piece(&mut state, Position(0, 0), PieceColor::Black, PieceType::Pawn);
    create_pieces(&mut state);
    assert_eq!(
        state.board[3][3],
        Some(Piece { piece_color: PieceColor::White, piece_type: PieceType::Queen, x: 3, y: 3 })
    );
    assert_eq!(
        state.board[0][0],
        Some(Piece { piece_color: PieceColor::White, piece_type: PieceType::Rook, x: 0, y: 0 })
    );
}

#[test]
fn positions_on_the_board_have_both_coordinates_below_eight() {
    assert!(Position(0, 0).is_valid());
    assert!(Position(7, 7).is_valid());
    assert!(!Position(8, 0).is_valid());
    assert!(!Position(0, 8).is_valid());
    assert!(!Position(-1, 3).is_valid());
    assert!(!Position(3, -1).is_valid());
}

#[test]
fn numbers_are_read_with_an_optional_sign() {
    assert_eq!(parse_number("0"), Some(0));
    assert_eq!(parse_number("6"), Some(6));
    assert_eq!(parse_number("+6"), Some(6));
    assert_eq!(parse_number("-6"), Some(-6));
    assert_eq!(parse_number("007"), Some(7));
    assert_eq!(parse_number("-0"), Some(0));
    assert_eq!(parse_number("2147483647"), Some(i32::MAX));
    assert_eq!(parse_number("-2147483648"), Some(i32::MIN));
    assert_eq!(parse_number("+2147483647"), Some(i32::MAX));
}

#[test]
fn what_is_no_number_is_refused() {
    assert_eq!(parse_number(""), None);
    assert_eq!(parse_number("+"), None);
    assert_eq!(parse_number("-"), None);
    assert_eq!(parse_number("six"), None);
    assert_eq!(parse_number("6 "), None);
    assert_eq!(parse_number(" 6"), None);
    assert_eq!(parse_number("6.0"), None);
    assert_eq!(parse_number("--6"), None);
    assert_eq!(parse_number("6-"), None);
    assert_eq!(parse_number("1_000"), None);
    assert_eq!(parse_number("\u{0661}"), None);
    assert_eq!(parse_number("2147483648"), None);
    assert_eq!(parse_number("-2147483649"), None);
    assert_eq!(parse_number("99999999999999999999999999"), None);
}

#[test]
fn numbers_are_read_as_the_standard_library_reads_them() {
    for text in [
        "0", "1", "-1", "+1", "12", "-12", "2147483647", "2147483648", "-2147483648",
        "-2147483649", "", "+", "-", "a", "1a", "a1", " 1", "1 ", "+-1", "00", "-00012",
    ] {
        assert_eq!(parse_number(text), text.parse::<i32>().ok(), "{:?}", text);
    }
}

#[test]
fn options_default_to_one_player_and_depth_six() {
    assert_eq!(DEFAULT_NUMBER_OF_PLAYERS, 1);
    assert_eq!(DEFAULT_DEPTH, 6);
    assert_eq!(
        program_options(&args_of(&["chess"])),
        Some(ProgramOptions { number_of_players: 1, depth: 6 })
    );
    assert_eq!(
        program_options(&args_of(&[])),
        Some(ProgramOptions { number_of_players: 1, depth: 6 })
    );
}

#[test]
fn options_are_read_from_the_second_and_third_argument() {
    assert_eq!(
        program_options(&args_of(&["chess", "2"])),
        Some(ProgramOptions { number_of_players: 2, depth: 6 })
    );
    assert_eq!(
        program_options(&args_of(&["chess", "0", "3"])),
        Some(ProgramOptions { number_of_players: 0, depth: 3 })
    );
    assert_eq!(
        program_options(&args_of(&["chess", "-4", "+12"])),
        Some(ProgramOptions { number_of_players: -4, depth: 12 })
    );
}

#[test]
fn bad_or_surplus_arguments_give_no_options() {
    assert_eq!(program_options(&args_of(&["chess", "two"])), None);
    assert_eq!(program_options(&args_of(&["chess", "2", "deep"])), None);
    assert_eq!(program_options(&args_of(&["chess", "", "3"])), None);
    assert_eq!(program_options(&args_of(&["chess", "1", "6", "7"])), None);
    assert_eq!(program_options(&args_of(&["chess", "1", "6", "x", "y"])), None);
    assert_eq!(program_options(&args_of(&["chess", "x", "6", "7"])), None);
}

#[test]
fn the_first_click_picks_a_square() {
    let mut state = started();
    let before = state;
    let mut selected = SelectedSquare { position: None };
    let mouse = MousePosition { position: Some(Position(4, 1)) };
    let outcome = mouse_pressed_system(true, false, &mouse, &mut selected, &mut state, 1);
    assert_eq!(
        outcome,
        ClickOutcome { clear_highlights: false, highlight: Some(Position(4, 1)), moved: None }
    );
    assert_eq!(selected.position, Some(Position(4, 1)));
    assert_eq!(state, before);
}

#[test]
fn the_second_click_asks_for_the_move() {
    let mut state = started();
    let mut selected = SelectedSquare { position: Some(Position(4, 1)) };
    let mouse = MousePosition { position: Some(Position(4, 3)) };
    let outcome = mouse_pressed_system(true, false, &mouse, &mut selected, &mut state, 1);
    assert_eq!(
        outcome,
        ClickOutcome {
            clear_highlights: true,
            highlight: None,
            moved: Some(AppliedMove {
                from: Position(4, 1),
                to: Position(4, 3),
                promoted: false,
                rook: None
            }),
        }
    );
    assert_eq!(selected.position, None);
    assert_eq!(state.now_moves, PieceColor::Black);
    assert!(!state.player_moves);
    assert!(state.board[4][3].is_some());
}

#[test]
fn a_second_click_on_a_square_out_of_reach_drops_the_pick() {
    let mut state = started();
    let before = state;
    let mut selected = SelectedSquare { position: Some(Position(4, 1)) };
    let mouse = MousePosition { position: Some(Position(4, 5)) };
    let outcome = mouse_pressed_system(true, false, &mouse, &mut selected, &mut state, 1);
    assert_eq!(outcome, ClickOutcome { clear_highlights: true, highlight: None, moved: None });
    assert_eq!(selected.position, None);
    assert_eq!(state, before);
}

#[test]
fn a_click_off_the_board_or_a_right_click_drops_the_pick() {
    let mut state = started();
    let before = state;
    let mut selected = SelectedSquare { position: Some(Position(4, 1)) };
    let off = MousePosition { position: None };
    let outcome = mouse_pressed_system(true, false, &off, &mut selected, &mut state, 1);
    assert_eq!(outcome, ClickOutcome { clear_highlights: true, highlight: None, moved: None });
    assert_eq!(selected.position, None);

    selected.position = Some(Position(4, 1));
    let over = MousePosition { position: Some(Position(4, 3)) };
    let outcome = mouse_pressed_system(false, true, &over, &mut selected, &mut state, 1);
    assert_eq!(outcome, ClickOutcome { clear_highlights: true, highlight: None, moved: None });
    assert_eq!(selected.position, None);
    assert_eq!(state, before);
}

#[test]
fn without_a_click_nothing_happens() {
    let mut state = started();
    let before = state;
    let mut selected = SelectedSquare { position: Some(Position(4, 1)) };
    let mouse = MousePosition { position: Some(Position(4, 3)) };
    let outcome = mouse_pressed_system(false, false, &mouse, &mut selected, &mut state, 1);
    assert_eq!(outcome, ClickOutcome { clear_highlights: false, highlight: None, moved: None });
    assert_eq!(selected.position, Some(Position(4, 1)));
    assert_eq!(state, before);
}

#[test]
fn both_buttons_at_once_pick_and_drop() {
    let mut state = started();
    let mut selected = SelectedSquare { position: None };
    let mouse = MousePosition { position: Some(Position(4, 1)) };
    let outcome = mouse_pressed_system(true, true, &mouse, &mut selected, &mut state, 1);
    assert_eq!(
        outcome,
        ClickOutcome { clear_highlights: true, highlight: Some(Position(4, 1)), moved: None }
    );
    assert_eq!(selected.position, None);
}
