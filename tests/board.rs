use tic_tac_toe::board::{Board, BOARD_SIZE, PLAYER_O, PLAYER_X};

fn board_with(moves: &[(usize, usize, char)]) -> Board {
    let mut b = Board::new();
    for &(r, c, p) in moves {
        assert!(b.is_valid_move(r, c));
        b.make_move(r, c, p);
    }
    b
}

#[test]
fn empty_board_has_no_winner_and_no_draw() {
    let b = Board::new();
    assert!(!b.is_winner('X'));
    assert!(!b.is_winner('O'));
    assert!(!b.is_draw());
}

#[test]
fn every_cell_of_new_board_is_a_valid_move() {
    let b = Board::new();
    for r in 0..BOARD_SIZE {
        for c in 0..BOARD_SIZE {
            assert!(b.is_valid_move(r, c));
        }
    }
}

#[test]
fn moves_off_the_board_are_invalid() {
    let b = Board::new();
    assert!(!b.is_valid_move(3, 0));
    assert!(!b.is_valid_move(0, 3));
    assert!(!b.is_valid_move(3, 3));
    assert!(!b.is_valid_move(usize::MAX, 1));
    assert!(!b.is_valid_move(1, usize::MAX));
}

#[test]
fn occupied_cell_is_no_longer_a_valid_move() {
    let mut b = Board::new();
    assert!(b.is_valid_move(0, 0));
    b.make_move(0, 0, PLAYER_X);
    assert!(!b.is_valid_move(0, 0));
    assert!(b.is_valid_move(0, 1));
}

#[test]
fn full_top_row_wins() {
    let b = board_with(&[(0, 0, 'X'), (0, 1, 'X'), (0, 2, 'X')]);
    assert!(b.is_winner('X'));
    assert!(!b.is_winner('O'));
    assert!(!b.is_draw());
}

#[test]
fn full_column_wins() {
    let b = board_with(&[(0, 1, 'O'), (1, 1, 'O'), (2, 1, 'O'), (0, 0, 'X'), (2, 2, 'X')]);
    assert!(b.is_winner('O'));
    assert!(!b.is_winner('X'));
}

#[test]
fn main_diagonal_wins() {
    let b = board_with(&[(0, 0, 'X'), (0, 1, 'O'), (1, 1, 'X'), (0, 2, 'O'), (2, 2, 'X')]);
    assert!(b.is_winner('X'));
    assert!(!b.is_winner('O'));
}

#[test]
fn anti_diagonal_wins() {
    let b = board_with(&[(0, 2, 'O'), (1, 1, 'O'), (2, 0, 'O')]);
    assert!(b.is_winner('O'));
    assert!(!b.is_winner('X'));
}

#[test]
fn mixed_line_does_not_win() {
    let b = board_with(&[(0, 0, 'X'), (0, 1, 'O'), (0, 2, 'X'), (1, 0, 'X'), (2, 0, 'O')]);
    assert!(!b.is_winner('X'));
    assert!(!b.is_winner('O'));
}

#[test]
fn full_board_without_line_is_a_draw() {
    let b = board_with(&[
        (0, 0, 'X'),
        (0, 1, 'O'),
        (0, 2, 'X'),
        (1, 1, 'O'),
        (1, 0, 'X'),
        (1, 2, 'O'),
        (2, 1, 'X'),
        (2, 0, 'O'),
        (2, 2, 'X'),
    ]);
    assert!(b.is_draw());
    assert!(!b.is_winner('X'));
    assert!(!b.is_winner('O'));
}

#[test]
fn board_with_one_empty_cell_is_no_draw() {
    let b = board_with(&[
        (0, 0, 'X'),
        (0, 1, 'O'),
        (0, 2, 'X'),
        (1, 1, 'O'),
        (1, 0, 'X'),
        (1, 2, 'O'),
        (2, 1, 'X'),
        (2, 0, 'O'),
    ]);
    assert!(!b.is_draw());
}

#[test]
fn queries_leave_the_board_unchanged() {
    let b = board_with(&[(0, 0, 'X'), (1, 1, 'O')]);
    let before = b.render();
    let _ = b.is_valid_move(0, 0);
    let _ = b.is_valid_move(2, 2);
    let _ = b.is_winner(PLAYER_X);
    let _ = b.is_winner(PLAYER_O);
    let _ = b.is_draw();
    assert_eq!(b.render(), before);
}

#[test]
fn render_empty_board() {
    let expected = "-------------\n|   |   |   |\n-------------\n|   |   |   |\n-------------\n|   |   |   |\n-------------\n";
    assert_eq!(Board::new().render(), expected);
}

#[test]
fn render_board_with_marks() {
    let b = board_with(&[(0, 0, 'X'), (0, 1, 'O'), (1, 1, 'X'), (2, 2, 'O')]);
    let expected = "-------------\n| X | O |   |\n-------------\n|   | X |   |\n-------------\n|   |   | O |\n-------------\n";
    assert_eq!(b.render(), expected);
}
