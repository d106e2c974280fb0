//! The game controller's verified core: the turn-taking state and one
//! step of the game loop.

use vstd::prelude::*;

use crate::board::{
    cell_index, lemma_mark_count_update, mark_count, opposite_mark, Board, Cell, PlayerMark,
};
use crate::reader::{accepts, parse_move, parsed_ints};
use crate::rules::{outcome_of, Outcome};

verus! {

/// What one step of the game loop did with the line it was given.
#[derive(Clone, Copy, PartialEq, Eq, Structural, Debug)]
pub enum StepResult {
    Placed(usize, usize),
    Rejected,
}

/// The controller-owned state of one game: the board and the player
/// whose turn it is. Player X moves first.
pub struct GameState {
    pub board: Board,
    pub current: PlayerMark,
}

impl GameState {
    /// A reachable state is well formed: the board has its nine cells,
    /// and the mark counts agree with whose turn it is (X moves first
    /// and turns alternate strictly).
    pub open spec fn wf(&self) -> bool {
        &&& self.board.wf()
        &&& self.current == PlayerMark::X ==> mark_count(self.board@, PlayerMark::X) == mark_count(
            self.board@,
            PlayerMark::O,
        )
        &&& self.current == PlayerMark::O ==> mark_count(self.board@, PlayerMark::X) == mark_count(
            self.board@,
            PlayerMark::O,
        ) + 1
    }

    /// A fresh game: an all-empty board, X to move.
    pub fn new() -> (r: GameState)
        ensures
            r.wf(),
            forall|i: int| 0 <= i < 9 ==> r.board@[i] == Cell::Empty,
            r.current == PlayerMark::X,
    {
        let board = Board::new();
        GameState { board, current: PlayerMark::X }
    }

    /// Process one line of input for the current player: when the
    /// reader accepts the line, place the move it names and hand the
    /// turn to the other player; otherwise reject it and change
    /// nothing.
    pub fn step(&mut self, line: &[u8]) -> (r: StepResult)
        requires
            old(self).wf(),
            outcome_of(old(self).board@) == Outcome::InProgress,
        ensures
            final(self).wf(),
            ({
                let ints = parsed_ints(line@);
                if accepts(line@, old(self).board@) {
                    &&& r == StepResult::Placed(ints[0] as usize, ints[1] as usize)
                    &&& final(self).board@ == old(self).board@.update(
                        cell_index(ints[0] as int, ints[1] as int),
                        Cell::Marked(old(self).current),
                    )
                    &&& final(self).current == opposite_mark(old(self).current)
                } else {
                    &&& r == StepResult::Rejected
                    &&& final(self).board@ == old(self).board@
                    &&& final(self).current == old(self).current
                }
            }),
    {
        match parse_move(line, &self.board) {
            Some((row, col)) => {
                let mark = self.current;
                let _ = self.board.place(row, col, mark);
                proof {
                    lemma_mark_count_update(
                        old(self).board@,
                        cell_index(row as int, col as int),
                        mark,
                    );
                }
                self.current = self.current.opposite();
                StepResult::Placed(row, col)
            },
            None => StepResult::Rejected,
        }
    }
}

/// Mark balance: after any legal sequence of placements — X first,
/// strict alternation — the number of X marks on the board exceeds the
/// number of O marks by exactly 0 or 1. `GameState::new` establishes
/// well-formedness, `step` preserves it, so this holds of every
/// reachable state.
pub proof fn lemma_mark_balance(g: &GameState)
    requires
        g.wf(),
    ensures
        mark_count(g.board@, PlayerMark::X) - mark_count(g.board@, PlayerMark::O) == 0
            || mark_count(g.board@, PlayerMark::X) - mark_count(g.board@, PlayerMark::O) == 1,
{
}

} // verus!
