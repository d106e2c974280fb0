//! The rule evaluator: win detection over the eight lines, and draw
//! detection, both pure functions of the board.

use vstd::prelude::*;

use crate::board::{board_full, Board, Cell, PlayerMark};

verus! {

/// The terminal state of a game, derived from the board.
#[derive(Clone, Copy, PartialEq, Eq, Structural, Debug)]
pub enum Outcome {
    InProgress,
    Win(PlayerMark),
    Draw,
}

/// Cell index of the `j`-th cell (0, 1 or 2) of line `k`, for the eight
/// lines in inspection order: rows 0..2, columns 0..2, the main
/// diagonal, the anti-diagonal.
pub open spec fn line_cell(k: int, j: int) -> int
    recommends
        0 <= k < 8,
        0 <= j < 3,
{
    if k < 3 {
        3 * k + j  // row k
    } else if k < 6 {
        (k - 3) + 3 * j  // column k - 3
    } else if k == 6 {
        4 * j  // main diagonal
    } else {
        2 + 2 * j  // anti-diagonal
    }
}

/// Whether every cell of line `k` carries `m`.
pub open spec fn line_won_by(b: Seq<Cell>, k: int, m: PlayerMark) -> bool
    recommends
        b.len() == 9,
        0 <= k < 8,
{
    b[line_cell(k, 0)] == Cell::Marked(m) && b[line_cell(k, 1)] == Cell::Marked(m) && b[line_cell(
        k,
        2,
    )] == Cell::Marked(m)
}

/// The mark that owns line `k` outright, if any.
pub open spec fn line_winner(b: Seq<Cell>, k: int) -> Option<PlayerMark>
    recommends
        b.len() == 9,
        0 <= k < 8,
{
    if line_won_by(b, k, PlayerMark::X) {
        Some(PlayerMark::X)
    } else if line_won_by(b, k, PlayerMark::O) {
        Some(PlayerMark::O)
    } else {
        None
    }
}

/// The winner found by inspecting lines `k`, `k + 1`, ... in order and
/// keeping the first line owned outright.
pub open spec fn winner_from(b: Seq<Cell>, k: int) -> Option<PlayerMark>
    recommends
        b.len() == 9,
        0 <= k <= 8,
    decreases 8 - k,
{
    if k < 0 || k >= 8 {
        None
    } else if line_winner(b, k) is Some {
        line_winner(b, k)
    } else {
        winner_from(b, k + 1)
    }
}

/// The winner of the board: the mark of the first fully-marked line in
/// inspection order, `None` when no line is fully marked.
pub open spec fn board_winner(b: Seq<Cell>) -> Option<PlayerMark> {
    winner_from(b, 0)
}

/// Whether some row, column or diagonal is uniformly marked `m`.
pub open spec fn has_winning_line(b: Seq<Cell>, m: PlayerMark) -> bool {
    exists|k: int| 0 <= k < 8 && line_won_by(b, k, m)
}

/// A board is a draw when it has no winner and no empty cell.
pub open spec fn board_draw(b: Seq<Cell>) -> bool {
    board_winner(b) is None && board_full(b)
}

/// A reported winner really owns a line: whenever the evaluator answers
/// `Some(m)`, some row, column or diagonal is uniformly marked `m`.
pub proof fn lemma_winner_has_line(b: Seq<Cell>, m: PlayerMark)
    requires
        board_winner(b) == Some(m),
    ensures
        has_winning_line(b, m),
{
    reveal_with_fuel(winner_from, 9);
    if line_winner(b, 0) == Some::<PlayerMark>(m) {
        assert(line_won_by(b, 0, m));
    } else if line_winner(b, 1) == Some::<PlayerMark>(m) {
        assert(line_won_by(b, 1, m));
    } else if line_winner(b, 2) == Some::<PlayerMark>(m) {
        assert(line_won_by(b, 2, m));
    } else if line_winner(b, 3) == Some::<PlayerMark>(m) {
        assert(line_won_by(b, 3, m));
    } else if line_winner(b, 4) == Some::<PlayerMark>(m) {
        assert(line_won_by(b, 4, m));
    } else if line_winner(b, 5) == Some::<PlayerMark>(m) {
        assert(line_won_by(b, 5, m));
    } else if line_winner(b, 6) == Some::<PlayerMark>(m) {
        assert(line_won_by(b, 6, m));
    } else {
        assert(line_winner(b, 7) == Some::<PlayerMark>(m));
        assert(line_won_by(b, 7, m));
    }
}

/// A draw means no winner and a full board.
pub proof fn lemma_draw_no_winner(b: Seq<Cell>)
    requires
        board_draw(b),
    ensures
        board_winner(b) is None,
        board_full(b),
{
}

/// Cell indices of the `j`-th cell of line `k`, as executable values.
fn line_cells(k: usize) -> (r: (usize, usize, usize))
    requires
        k < 8,
    ensures
        r.0 == line_cell(k as int, 0),
        r.1 == line_cell(k as int, 1),
        r.2 == line_cell(k as int, 2),
        r.0 < 9 && r.1 < 9 && r.2 < 9,
{
    if k < 3 {
        (3 * k, 3 * k + 1, 3 * k + 2)
    } else if k < 6 {
        (k - 3, k, k + 3)
    } else if k == 6 {
        (0, 4, 8)
    } else {
        (2, 4, 6)
    }
}

/// The winner of the board, if any: the mark of the first line in
/// inspection order whose three cells all carry that mark.
pub fn winner(board: &Board) -> (r: Option<PlayerMark>)
    requires
        board.wf(),
    ensures
        r == board_winner(board@),
{
    let mut k: usize = 0;
    while k < 8
        invariant
            board.wf(),
            k <= 8,
            winner_from(board@, k as int) == board_winner(board@),
        decreases 8 - k,
    {
        let (i0, i1, i2) = line_cells(k);
        let c0 = board.cell(i0);
        let c1 = board.cell(i1);
        let c2 = board.cell(i2);
        match c0 {
            Cell::Marked(m) => {
                if c1 == c0 && c2 == c0 {
                    return Some(m);
                }
            },
            Cell::Empty => {},
        }
        k = k + 1;
    }
    None
}

/// Whether the game has ended with a full board and no winner.
pub fn is_draw(board: &Board) -> (r: bool)
    requires
        board.wf(),
    ensures
        r == board_draw(board@),
{
    winner(board).is_none() && board.is_full()
}

/// The outcome the controller acts on: a win for the first fully-marked
/// line's owner, a draw on a full board without one, and in-progress
/// otherwise.
pub open spec fn outcome_of(b: Seq<Cell>) -> Outcome {
    match board_winner(b) {
        Some(m) => Outcome::Win(m),
        None => if board_full(b) {
            Outcome::Draw
        } else {
            Outcome::InProgress
        },
    }
}

/// Derive the outcome of the board.
pub fn outcome(board: &Board) -> (r: Outcome)
    requires
        board.wf(),
    ensures
        r == outcome_of(board@),
{
    match winner(board) {
        Some(m) => Outcome::Win(m),
        None => if board.is_full() {
            Outcome::Draw
        } else {
            Outcome::InProgress
        },
    }
}

} // verus!
