use tictactoe::{is_draw, outcome, winner, Board, Outcome, PlayerMark};

fn place_all(b: &mut Board, mark: PlayerMark, cells: &[(usize, usize)]) {
    for &(row, col) in cells {
        assert_eq!(b.place(row, col, mark), Ok(()));
    }
}

#[test]
fn empty_board_has_no_winner() {
    let b = Board::new();
    assert_eq!(winner(&b), None);
    assert!(!is_draw(&b));
    assert_eq!(outcome(&b), Outcome::InProgress);
}

#[test]
fn row_win_is_detected() {
    let mut b = Board::new();
    place_all(&mut b, PlayerMark::X, &[(1, 0), (1, 1), (1, 2)]);
    place_all(&mut b, PlayerMark::O, &[(0, 0), (2, 2)]);
    assert_eq!(winner(&b), Some(PlayerMark::X));
    assert_eq!(outcome(&b), Outcome::Win(PlayerMark::X));
    assert!(!is_draw(&b));
}

#[test]
fn column_win_is_detected() {
    let mut b = Board::new();
    place_all(&mut b, PlayerMark::O, &[(0, 1), (1, 1), (2, 1)]);
    place_all(&mut b, PlayerMark::X, &[(0, 0), (2, 2)]);
    assert_eq!(winner(&b), Some(PlayerMark::O));
    assert_eq!(outcome(&b), Outcome::Win(PlayerMark::O));
}

#[test]
fn main_diagonal_win_is_detected() {
    let mut b = Board::new();
    place_all(&mut b, PlayerMark::O, &[(0, 0), (1, 1), (2, 2)]);
    place_all(&mut b, PlayerMark::X, &[(0, 1), (1, 0)]);
    assert_eq!(winner(&b), Some(PlayerMark::O));
}

#[test]
fn anti_diagonal_win_is_detected() {
    let mut b = Board::new();
    place_all(&mut b, PlayerMark::X, &[(0, 2), (1, 1), (2, 0)]);
    place_all(&mut b, PlayerMark::O, &[(0, 0), (0, 1)]);
    assert_eq!(winner(&b), Some(PlayerMark::X));
}

#[test]
fn first_row_in_order_wins_tie_break() {
    // Rows 0 and 2 are both uniform; row 0 is inspected first.
    let mut b = Board::new();
    place_all(&mut b, PlayerMark::O, &[(0, 0), (0, 1), (0, 2)]);
    place_all(&mut b, PlayerMark::X, &[(2, 0), (2, 1), (2, 2)]);
    assert_eq!(winner(&b), Some(PlayerMark::O));
}

#[test]
fn first_column_in_order_wins_tie_break() {
    // Columns 0 and 2 are both uniform; column 0 is inspected first.
    let mut b = Board::new();
    place_all(&mut b, PlayerMark::O, &[(0, 0), (1, 0), (2, 0)]);
    place_all(&mut b, PlayerMark::X, &[(0, 2), (1, 2), (2, 2)]);
    assert_eq!(winner(&b), Some(PlayerMark::O));
}

#[test]
fn full_board_without_winner_is_a_draw() {
    // X O X / X O O / O X X: no uniform line.
    let mut b = Board::new();
    place_all(&mut b, PlayerMark::X, &[(0, 0), (0, 2), (1, 0), (2, 1), (2, 2)]);
    place_all(&mut b, PlayerMark::O, &[(0, 1), (1, 1), (1, 2), (2, 0)]);
    assert_eq!(winner(&b), None);
    assert!(b.is_full());
    assert!(is_draw(&b));
    assert_eq!(outcome(&b), Outcome::Draw);
}

#[test]
fn full_board_with_winner_is_not_a_draw() {
    // X X X / O O X / O X O: row 0 is uniform.
    let mut b = Board::new();
    place_all(&mut b, PlayerMark::X, &[(0, 0), (0, 1), (0, 2), (1, 2), (2, 1)]);
    place_all(&mut b, PlayerMark::O, &[(1, 0), (1, 1), (2, 0), (2, 2)]);
    assert!(b.is_full());
    assert_eq!(winner(&b), Some(PlayerMark::X));
    assert!(!is_draw(&b));
    assert_eq!(outcome(&b), Outcome::Win(PlayerMark::X));
}
