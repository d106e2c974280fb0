use tictactoe::{Board, BoardError, Cell, PlayerMark};

#[test]
fn new_board_is_all_empty() {
    let b = Board::new();
    for row in 0..3 {
        for col in 0..3 {
            assert_eq!(b.get(row, col), Ok(Cell::Empty));
        }
    }
}

#[test]
fn get_rejects_out_of_bounds() {
    let b = Board::new();
    assert_eq!(b.get(3, 0), Err(BoardError::OutOfBounds));
    assert_eq!(b.get(0, 3), Err(BoardError::OutOfBounds));
    assert_eq!(b.get(7, 7), Err(BoardError::OutOfBounds));
}

#[test]
fn place_marks_an_empty_cell() {
    let mut b = Board::new();
    assert_eq!(b.place(1, 2, PlayerMark::X), Ok(()));
    assert_eq!(b.get(1, 2), Ok(Cell::Marked(PlayerMark::X)));
    assert_eq!(b.get(1, 1), Ok(Cell::Empty));
}

#[test]
fn place_rejects_an_occupied_cell() {
    let mut b = Board::new();
    assert_eq!(b.place(1, 1, PlayerMark::X), Ok(()));
    assert_eq!(b.place(1, 1, PlayerMark::O), Err(BoardError::CellOccupied));
    assert_eq!(b.get(1, 1), Ok(Cell::Marked(PlayerMark::X)));
}

#[test]
fn place_rejects_out_of_bounds() {
    let mut b = Board::new();
    assert_eq!(b.place(3, 0, PlayerMark::X), Err(BoardError::OutOfBounds));
    assert_eq!(b.place(0, 9, PlayerMark::O), Err(BoardError::OutOfBounds));
}

#[test]
fn is_full_reports_remaining_space() {
    let mut b = Board::new();
    assert!(!b.is_full());
    let marks = [PlayerMark::X, PlayerMark::O];
    let mut turn = 0;
    for row in 0..3 {
        for col in 0..3 {
            assert!(!b.is_full());
            assert_eq!(b.place(row, col, marks[turn % 2]), Ok(()));
            turn += 1;
        }
    }
    assert!(b.is_full());
}

#[test]
fn render_empty_board() {
    let b = Board::new();
    assert_eq!(b.render(), "   \n   \n   \n");
}

#[test]
fn render_marked_board() {
    let mut b = Board::new();
    assert_eq!(b.place(0, 0, PlayerMark::X), Ok(()));
    assert_eq!(b.place(1, 1, PlayerMark::O), Ok(()));
    assert_eq!(b.render(), "X  \n O \n   \n");
}

#[test]
fn render_is_deterministic() {
    let mut b = Board::new();
    assert_eq!(b.place(2, 1, PlayerMark::O), Ok(()));
    assert_eq!(b.place(0, 2, PlayerMark::X), Ok(()));
    let first = b.render();
    let second = b.render();
    assert_eq!(first, second);
}
