use othello_server::othello::moves::{
    any_legal_moves, is_game_over, is_legal, legal_moves, make_move, next_player, score, winner,
};
use othello_server::othello::{initial_board, BoardStruct, Direction, Piece, Player};

fn frame(i: usize) -> bool {
    i < 10 || i >= 90 || i % 10 == 0 || i % 10 == 9
}

/// A board text with the frame in place, every playing cell empty except
/// the ones given.
fn board_with(cells: &[(usize, char)]) -> BoardStruct {
    let mut text: Vec<char> = (0..100).map(|i| if frame(i) { '?' } else { '.' }).collect();
    for &(i, c) in cells {
        text[i] = c;
    }
    let s: String = text.into_iter().collect();
    BoardStruct::deserialize(&s).expect("a well-formed board")
}

fn interior() -> Vec<usize> {
    (0..100).filter(|&i| !frame(i)).collect()
}

#[test]
fn initial_board_layout() {
    let b = initial_board();
    for i in 0..100 {
        let expected = if frame(i) {
            Piece::OUTER
        } else if i == 44 || i == 55 {
            Piece::WHITE
        } else if i == 45 || i == 54 {
            Piece::BLACK
        } else {
            Piece::EMPTY
        };
        assert_eq!(b.get(i), expected, "cell {}", i);
    }
    assert_eq!(BoardStruct::new().cells(), b.cells());
}

#[test]
fn initial_legal_moves_for_black() {
    let b = initial_board();
    assert_eq!(legal_moves(&Player::Black, &b), vec![34, 43, 56, 65]);
    assert_eq!(legal_moves(&Player::White, &b), vec![35, 46, 53, 64]);
    assert!(legal_moves(&Player::Unknown, &b).is_empty());
}

#[test]
fn is_legal_cases() {
    let b = initial_board();
    assert!(is_legal(&34, &Player::Black, &b));
    assert!(!is_legal(&35, &Player::Black, &b));
    assert!(!is_legal(&44, &Player::Black, &b));
    assert!(!is_legal(&0, &Player::Black, &b));
    assert!(!is_legal(&100, &Player::Black, &b));
    assert!(!is_legal(&usize::MAX, &Player::White, &b));
    assert!(!is_legal(&34, &Player::Unknown, &b));
}

#[test]
fn make_move_flips_one_piece() {
    let mut b = initial_board();
    let before = b.cells();
    assert!(make_move(&34, &Player::Black, &mut b).is_ok());
    assert_eq!(b.get(34), Piece::BLACK);
    assert_eq!(b.get(44), Piece::BLACK);
    for i in 0..100 {
        if i != 34 && i != 44 {
            assert_eq!(b.get(i), before[i], "cell {}", i);
        }
    }
}

#[test]
fn make_move_flips_every_bracketed_direction() {
    // Black at 55 closes a row to the left (54, 53 white, 52 black) and a
    // column upwards (45 white, 35 black); the diagonal 44 is white with an
    // empty cell behind it, so it stays.
    let mut b = board_with(&[
        (52, '@'),
        (53, 'o'),
        (54, 'o'),
        (35, '@'),
        (45, 'o'),
        (44, 'o'),
    ]);
    assert!(make_move(&55, &Player::Black, &mut b).is_ok());
    for i in [55, 54, 53, 52, 45, 35] {
        assert_eq!(b.get(i), Piece::BLACK, "cell {}", i);
    }
    assert_eq!(b.get(44), Piece::WHITE);
}

#[test]
fn illegal_move_leaves_board_unchanged() {
    let mut b = initial_board();
    let before = b.cells();
    let err = make_move(&11, &Player::Black, &mut b).unwrap_err();
    assert_eq!(b.cells(), before);
    assert_eq!(err.square(), 11);
    assert_eq!(err.player(), Player::Black);
    assert!(make_move(&44, &Player::White, &mut b).is_err());
    assert!(make_move(&250, &Player::White, &mut b).is_err());
    assert!(make_move(&34, &Player::Unknown, &mut b).is_err());
    assert_eq!(b.cells(), before);
}

#[test]
fn legal_move_changes_board_and_sets_square() {
    let mut b = initial_board();
    let before = b.cells();
    assert!(make_move(&46, &Player::White, &mut b).is_ok());
    assert_ne!(b.cells(), before);
    assert_eq!(b.get(46), Piece::WHITE);
    assert_eq!(b.get(45), Piece::WHITE);
}

#[test]
fn frame_stays_outer_after_moves() {
    let mut b = initial_board();
    let mut p = Player::Black;
    for _ in 0..20 {
        let moves = legal_moves(&p, &b);
        if moves.is_empty() {
            break;
        }
        assert!(make_move(&moves[0], &p, &mut b).is_ok());
        for i in 0..100 {
            assert_eq!(b.get(i) == Piece::OUTER, frame(i), "cell {}", i);
        }
        match next_player(&b, &p) {
            Some(q) => p = q,
            None => break,
        }
    }
}

#[test]
fn turn_passes_when_opponent_cannot_move() {
    // White has one piece, bracketed by nothing it could use; Black can take it.
    let b = board_with(&[(11, '@'), (12, 'o')]);
    assert!(!any_legal_moves(&Player::White, &b));
    assert!(any_legal_moves(&Player::Black, &b));
    assert_eq!(next_player(&b, &Player::White), Some(Player::Black));
    assert_eq!(next_player(&b, &Player::Black), Some(Player::Black));
}

#[test]
fn full_board_ends_game() {
    let cells: Vec<(usize, char)> = interior()
        .into_iter()
        .enumerate()
        .map(|(k, i)| (i, if k < 40 { '@' } else { 'o' }))
        .collect();
    let b = board_with(&cells);
    assert_eq!(winner(&b), Player::Black);
    assert_eq!(score(&Player::Black, &b), 16);
    assert_eq!(score(&Player::White, &b), -16);
    assert_eq!(next_player(&b, &Player::Black), None);
    assert_eq!(next_player(&b, &Player::White), None);
    assert!(is_game_over(&Player::Black, &b));
    assert!(is_game_over(&Player::White, &b));
    for sq in 0..100 {
        for p in [Player::Black, Player::White, Player::Unknown] {
            assert!(!is_legal(&sq, &p, &b));
        }
    }
}

#[test]
fn winner_white_and_draw() {
    let b = board_with(&[(11, 'o'), (12, 'o'), (13, '@')]);
    assert_eq!(winner(&b), Player::White);
    assert_eq!(score(&Player::White, &b), 1);
    let d = initial_board();
    assert_eq!(winner(&d), Player::Unknown);
    assert_eq!(score(&Player::Black, &d), 0);
}

#[test]
fn scores_are_opposite() {
    let mut b = initial_board();
    assert!(make_move(&34, &Player::Black, &mut b).is_ok());
    assert_eq!(score(&Player::Black, &b), 3);
    assert_eq!(score(&Player::White, &b), -3);
    assert_eq!(score(&Player::Black, &b) + score(&Player::White, &b), 0);
}

#[test]
fn score_of_unknown_counts_frame() {
    assert_eq!(score(&Player::Unknown, &initial_board()), 36);
}

#[test]
fn no_next_player_means_no_legal_square() {
    let b = board_with(&[(11, '@'), (88, '@')]);
    assert_eq!(next_player(&b, &Player::Black), None);
    assert_eq!(next_player(&b, &Player::White), None);
    for sq in 0..100 {
        for p in [Player::Black, Player::White, Player::Unknown] {
            assert!(!is_legal(&sq, &p, &b));
        }
    }
}

#[test]
fn opponents_and_directions() {
    assert_eq!(Player::Black.opponent(), Player::White);
    assert_eq!(Player::White.opponent(), Player::Black);
    assert_eq!(Player::Unknown.opponent(), Player::Unknown);
    let values: Vec<i32> = Direction::iter().iter().map(|d| d.value()).collect();
    assert_eq!(values, vec![-10, -11, -1, 9, 10, 11, 1, -9]);
    assert_eq!(Direction::UpRight.value(), -9);
    assert_eq!(Direction::DownLeft.value(), 9);
}

#[test]
fn piece_and_player_conversions() {
    assert_eq!(Player::from(Piece::BLACK), Player::Black);
    assert_eq!(Player::from(Piece::WHITE), Player::White);
    assert_eq!(Player::from(Piece::EMPTY), Player::Unknown);
    assert_eq!(Player::from(Piece::OUTER), Player::Unknown);
    assert_eq!(char::from(Piece::BLACK), '@');
    assert_eq!(char::from(Piece::WHITE), 'o');
    assert_eq!(char::from(Piece::EMPTY), '.');
    assert_eq!(char::from(Piece::OUTER), '?');
    assert_eq!(Piece::from('@'), Piece::BLACK);
    assert_eq!(Piece::from('o'), Piece::WHITE);
    assert_eq!(Piece::from('.'), Piece::EMPTY);
    assert_eq!(Piece::from('?'), Piece::OUTER);
    assert_eq!(Piece::from('x'), Piece::OUTER);
    assert_eq!(Piece::from(Player::Black), Piece::BLACK);
    assert_eq!(Piece::from(Player::White), Piece::WHITE);
    assert_eq!(Piece::from(Player::Unknown), Piece::OUTER);
}
