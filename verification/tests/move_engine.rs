use chessboard::board::{board_index, board_set, Board, Color, Field, Figure, FigureKind, Move, Pos};
use chessboard::engine::{board_apply_move, board_move_is_valid};
use chessboard::text::board_from_str;

fn clear_board() -> Board {
    Board { fields: [[Field::Empty; 8]; 8] }
}

fn starting_board() -> Board {
    board_from_str("RNBKQBNRPPPPPPPP                                pppppppprnbqkbnr")
}

fn set_up(board: &mut Board, p: Pos, kind: FigureKind, color: Color) {
    board_set(board, p, Field::Figure(Figure { kind, color }));
}

fn legal_moves(board: &Board) -> Vec<Move> {
    let mut moves = Vec::new();
    for sx in 0..8 {
        for sy in 0..8 {
            for dx in 0..8 {
                for dy in 0..8 {
                    if board_move_is_valid(board, ((sx, sy), (dx, dy))) {
                        moves.push(((sx, sy), (dx, dy)));
                    }
                }
            }
        }
    }
    moves
}

#[test]
fn a_move_from_an_empty_cell_is_not_valid() {
    let board = starting_board();
    assert!(!board_move_is_valid(&board, ((3, 3), (3, 4))));
    assert!(!board_move_is_valid(&board, ((3, 3), (4, 5))));
    assert!(!board_move_is_valid(&clear_board(), ((0, 0), (0, 1))));
}

#[test]
fn a_move_with_an_endpoint_off_the_board_is_not_valid() {
    let board = starting_board();
    assert!(!board_move_is_valid(&board, ((0, 7), (0, 8))));
    assert!(!board_move_is_valid(&board, ((0, 7), (-1, 7))));
    assert!(!board_move_is_valid(&board, ((-1, 6), (0, 5))));
    assert!(!board_move_is_valid(&board, ((8, 8), (7, 7))));
    assert!(!board_move_is_valid(&board, ((i32::MIN, 0), (i32::MAX, 0))));
}

#[test]
fn the_starting_position_has_twelve_moves_for_each_side() {
    let board = starting_board();
    let moves = legal_moves(&board);
    let white = moves.iter().filter(|m| (m.0).1 >= 6).count();
    let black = moves.iter().filter(|m| (m.0).1 <= 1).count();
    // Eight pawn steps, and for each knight its two jumps onto the third rank.
    assert_eq!(white, 8 + 2 * 2);
    assert_eq!(black, 8 + 2 * 2);
    assert_eq!(moves.len(), 24);
    assert!(moves.contains(&((1, 7), (2, 5))));
    assert!(!moves.contains(&((1, 7), (1, 4))));
    assert!(!moves.contains(&((6, 0), (6, 3))));
}

#[test]
fn each_piece_moves_by_its_own_rule() {
    let board = starting_board();
    assert!(board_move_is_valid(&board, ((0, 6), (0, 5))));
    assert!(!board_move_is_valid(&board, ((0, 6), (0, 4))));
    assert!(board_move_is_valid(&board, ((1, 7), (2, 5))));
    assert!(board_move_is_valid(&board, ((1, 7), (0, 5))));
    assert!(!board_move_is_valid(&board, ((1, 7), (1, 5))));
    assert!(!board_move_is_valid(&board, ((0, 7), (0, 5))));
    assert!(!board_move_is_valid(&board, ((2, 7), (4, 5))));
    assert!(!board_move_is_valid(&board, ((3, 7), (3, 5))));
    assert!(!board_move_is_valid(&board, ((4, 7), (4, 6))));
    assert!(board_move_is_valid(&board, ((4, 1), (4, 2))));
    assert!(board_move_is_valid(&board, ((6, 0), (5, 2))));
}

#[test]
fn either_colour_may_move_at_any_time() {
    let mut board = starting_board();
    board_apply_move(&mut board, ((0, 6), (0, 5)));
    assert!(board_move_is_valid(&board, ((1, 6), (1, 5))));
    assert!(board_move_is_valid(&board, ((0, 1), (0, 2))));
}

#[test]
fn an_invalid_move_leaves_the_board_unchanged() {
    let start = starting_board();
    for m in [
        ((0, 6), (0, 4)),
        ((0, 7), (0, 5)),
        ((3, 3), (3, 4)),
        ((0, 0), (0, 0)),
        ((4, 7), (4, 7)),
        ((0, 7), (0, 8)),
        ((-1, -1), (0, 0)),
        ((1, 7), (3, 6)),
    ] {
        let mut board = start;
        assert!(!board_move_is_valid(&board, m));
        board_apply_move(&mut board, m);
        assert_eq!(board, start);
    }
}

#[test]
fn applying_an_invalid_move_twice_is_still_nothing() {
    let start = starting_board();
    let mut board = start;
    board_apply_move(&mut board, ((0, 7), (0, 5)));
    board_apply_move(&mut board, ((0, 7), (0, 5)));
    assert_eq!(board, start);
}

#[test]
fn a_valid_move_carries_the_piece_over() {
    let start = starting_board();
    let mut board = start;
    board_apply_move(&mut board, ((1, 7), (2, 5)));
    assert_eq!(
        board_index(board, (2, 5)),
        Field::Figure(Figure { kind: FigureKind::Knight, color: Color::W })
    );
    assert_eq!(board_index(board, (1, 7)), Field::Empty);
    for x in 0..8 {
        for y in 0..8 {
            if (x, y) != (1, 7) && (x, y) != (2, 5) {
                assert_eq!(board_index(board, (x, y)), board_index(start, (x, y)));
            }
        }
    }
}

#[test]
fn every_valid_move_moves_the_source_cell_to_the_destination() {
    let mut start = starting_board();
    board_set(&mut start, (3, 6), Field::Empty);
    board_set(&mut start, (4, 1), Field::Empty);
    set_up(&mut start, (2, 2), FigureKind::Pawn, Color::W);
    let moves = legal_moves(&start);
    assert!(moves.len() > 24);
    for (s, d) in moves {
        let mut board = start;
        board_apply_move(&mut board, (s, d));
        assert_eq!(board_index(board, d), board_index(start, s));
        assert_eq!(board_index(board, s), Field::Empty);
        assert_ne!(s, d);
    }
}

#[test]
fn a_capture_overwrites_the_captured_piece() {
    let mut board = clear_board();
    set_up(&mut board, (3, 3), FigureKind::Rook, Color::W);
    set_up(&mut board, (3, 0), FigureKind::Queen, Color::B);
    assert!(board_move_is_valid(&board, ((3, 3), (3, 0))));
    board_apply_move(&mut board, ((3, 3), (3, 0)));
    assert_eq!(
        board_index(board, (3, 0)),
        Field::Figure(Figure { kind: FigureKind::Rook, color: Color::W })
    );
    assert_eq!(board_index(board, (3, 3)), Field::Empty);
    let pieces = (0..8)
        .flat_map(|x| (0..8).map(move |y| (x, y)))
        .filter(|p| board_index(board, *p) != Field::Empty)
        .count();
    assert_eq!(pieces, 1);
}

#[test]
fn a_pawn_that_reaches_the_last_rank_stays_a_pawn() {
    let mut board = clear_board();
    set_up(&mut board, (5, 1), FigureKind::Pawn, Color::W);
    board_apply_move(&mut board, ((5, 1), (5, 0)));
    assert_eq!(
        board_index(board, (5, 0)),
        Field::Figure(Figure { kind: FigureKind::Pawn, color: Color::W })
    );
}

#[test]
fn no_move_from_a_square_to_itself_is_valid() {
    let mut board = starting_board();
    set_up(&mut board, (3, 3), FigureKind::King, Color::W);
    set_up(&mut board, (4, 4), FigureKind::Queen, Color::B);
    for x in 0..8 {
        for y in 0..8 {
            assert!(!board_move_is_valid(&board, ((x, y), (x, y))));
        }
    }
}
