use chessboard::board::{is_on_board, Board, Color, Field, Figure, FigureKind};
use chessboard::engine::board_move_is_valid;
use chessboard::sampler::{
    board_random_move, move_from_bytes, random_move, sampler_step, Step, ATTEMPTS,
};
use chessboard::text::board_from_str;

#[test]
fn the_sampler_tries_a_thousand_times() {
    assert_eq!(ATTEMPTS, 1000);
}

#[test]
fn bytes_are_reduced_modulo_eight() {
    assert_eq!(move_from_bytes(0, 0, 0, 0), ((0, 0), (0, 0)));
    assert_eq!(move_from_bytes(1, 2, 3, 4), ((1, 2), (3, 4)));
    assert_eq!(move_from_bytes(7, 8, 9, 15), ((7, 0), (1, 7)));
    assert_eq!(move_from_bytes(255, 254, 128, 13), ((7, 6), (0, 5)));
}

#[test]
fn every_pair_of_squares_comes_from_some_bytes() {
    for sx in 0..8u8 {
        for sy in 0..8u8 {
            for dx in 0..8u8 {
                for dy in 0..8u8 {
                    let m = move_from_bytes(sx + 8, sy + 16, dx + 64, dy + 248);
                    assert_eq!(m, ((sx as i32, sy as i32), (dx as i32, dy as i32)));
                }
            }
        }
    }
}

#[test]
fn a_random_move_is_on_the_board() {
    for _ in 0..2000 {
        let (s, d) = random_move();
        assert!(is_on_board(s));
        assert!(is_on_board(d));
    }
}

#[test]
fn random_moves_are_not_all_the_same() {
    let first = random_move();
    assert!((0..200).any(|_| random_move() != first));
}

#[test]
fn random_moves_reach_every_file_and_rank() {
    let mut seen = [[false; 8]; 4];
    for _ in 0..4000 {
        let ((a, b), (c, d)) = random_move();
        seen[0][a as usize] = true;
        seen[1][b as usize] = true;
        seen[2][c as usize] = true;
        seen[3][d as usize] = true;
    }
    assert!(seen.iter().all(|coordinate| coordinate.iter().all(|hit| *hit)));
}

#[test]
fn a_board_random_move_is_valid_or_the_move_from_the_corner_to_itself() {
    let board = board_from_str("RNBKQBNRPPPPPPPP                                pppppppprnbqkbnr");
    for _ in 0..20 {
        let m = board_random_move(&board);
        assert!(board_move_is_valid(&board, m) || m == ((0, 0), (0, 0)));
        assert_eq!(board_move_is_valid(&board, m), m != ((0, 0), (0, 0)));
    }
}

#[test]
fn a_board_with_many_moves_yields_one() {
    let mut board = Board { fields: [[Field::Empty; 8]; 8] };
    for x in 0..8 {
        for y in 0..8 {
            if (x + y) % 2 == 0 {
                board.fields[y][x] =
                    Field::Figure(Figure { kind: FigureKind::Queen, color: Color::W });
            }
        }
    }
    let m = board_random_move(&board);
    assert!(board_move_is_valid(&board, m));
    assert_ne!(m.0, m.1);
}

#[test]
fn a_board_without_legal_moves_yields_the_move_from_the_corner_to_itself() {
    let pawn = Field::Figure(Figure { kind: FigureKind::Pawn, color: Color::W });
    let board = Board { fields: [[pawn; 8]; 8] };
    assert_eq!(board_random_move(&board), ((0, 0), (0, 0)));
    let queen = Field::Figure(Figure { kind: FigureKind::Queen, color: Color::B });
    let board = Board { fields: [[queen; 8]; 8] };
    assert_eq!(board_random_move(&board), ((0, 0), (0, 0)));
}

#[test]
fn an_empty_board_yields_the_move_from_the_corner_to_itself() {
    let board = Board { fields: [[Field::Empty; 8]; 8] };
    assert_eq!(board_random_move(&board), ((0, 0), (0, 0)));
}

#[test]
fn the_move_from_the_corner_to_itself_is_never_valid() {
    for letter in ["", "K", "k", "Q", "q", "R", "r", "B", "b", "N", "n", "P", "p"] {
        let board = board_from_str(letter);
        assert!(!board_move_is_valid(&board, ((0, 0), (0, 0))));
    }
}

#[test]
fn a_legal_draw_is_found_at_any_attempt() {
    let board = board_from_str("RNBKQBNRPPPPPPPP                                pppppppprnbqkbnr");
    let legal = ((1, 7), (2, 5));
    for attempt in [0, 1, 500, 998, 999] {
        assert_eq!(sampler_step(&board, attempt, legal), Step::Found(legal));
    }
}

#[test]
fn an_illegal_draw_is_followed_by_another_until_the_last_attempt() {
    let board = board_from_str("RNBKQBNRPPPPPPPP                                pppppppprnbqkbnr");
    let illegal = ((1, 7), (1, 4));
    assert_eq!(sampler_step(&board, 0, illegal), Step::Again);
    assert_eq!(sampler_step(&board, 1, illegal), Step::Again);
    assert_eq!(sampler_step(&board, 997, illegal), Step::Again);
    assert_eq!(sampler_step(&board, 998, illegal), Step::Again);
}

#[test]
fn the_thousandth_illegal_draw_makes_the_sampler_give_up() {
    let board = board_from_str("RNBKQBNRPPPPPPPP                                pppppppprnbqkbnr");
    let illegal = ((0, 0), (0, 0));
    assert_eq!(sampler_step(&board, 999, illegal), Step::GiveUp);
    assert_eq!(sampler_step(&board, 1000, illegal), Step::GiveUp);
    assert_eq!(sampler_step(&board, u32::MAX, illegal), Step::GiveUp);
}

#[test]
fn stepping_through_draws_finds_the_first_legal_one() {
    let board = board_from_str("RNBKQBNRPPPPPPPP                                pppppppprnbqkbnr");
    let draws = [((3, 3), (3, 4)), ((0, 7), (0, 5)), ((4, 6), (4, 5)), ((1, 7), (2, 5))];
    let mut attempt = 0;
    let found = loop {
        match sampler_step(&board, attempt, draws[attempt as usize]) {
            Step::Found(m) => break Some(m),
            Step::Again => attempt += 1,
            Step::GiveUp => break None,
        }
    };
    assert_eq!(found, Some(((4, 6), (4, 5))));
    assert_eq!(attempt, 2);
}

#[test]
fn stepping_through_a_thousand_illegal_draws_gives_up_at_the_last() {
    let board = Board { fields: [[Field::Empty; 8]; 8] };
    let mut attempt = 0;
    let mut draws = 0;
    loop {
        draws += 1;
        match sampler_step(&board, attempt, ((2, 2), (3, 3))) {
            Step::Found(_) => panic!("no move is legal on an empty board"),
            Step::Again => attempt += 1,
            Step::GiveUp => break,
        }
    }
    assert_eq!(draws, 1000);
}
