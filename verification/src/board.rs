//! The board model: player marks, cells, and the 3-by-3 grid.

use vstd::prelude::*;
use vstd::string::StringExecFns;

verus! {

/// The identity of one of the two players.
#[derive(Clone, Copy, PartialEq, Eq, Structural, Debug)]
pub enum PlayerMark {
    X,
    O,
}

/// One square of the board: empty until a player marks it.
#[derive(Clone, Copy, PartialEq, Eq, Structural, Debug)]
pub enum Cell {
    Empty,
    Marked(PlayerMark),
}

/// How a board operation fails: coordinates off the grid, or a target
/// square that already carries a mark.
#[derive(Clone, Copy, PartialEq, Eq, Structural, Debug)]
pub enum BoardError {
    OutOfBounds,
    CellOccupied,
}

/// The mark of the player who moves after `m`.
pub open spec fn opposite_mark(m: PlayerMark) -> PlayerMark {
    match m {
        PlayerMark::X => PlayerMark::O,
        PlayerMark::O => PlayerMark::X,
    }
}

/// The character that renders a mark.
pub open spec fn mark_char(m: PlayerMark) -> char {
    match m {
        PlayerMark::X => 'X',
        PlayerMark::O => 'O',
    }
}

/// The character that renders a cell: a space while empty.
pub open spec fn cell_char(c: Cell) -> char {
    match c {
        Cell::Empty => ' ',
        Cell::Marked(m) => mark_char(m),
    }
}

impl PlayerMark {
    /// The other player's mark.
    pub fn opposite(self) -> (r: PlayerMark)
        ensures
            r == opposite_mark(self),
    {
        match self {
            PlayerMark::X => PlayerMark::O,
            PlayerMark::O => PlayerMark::X,
        }
    }

    /// The character that renders this mark.
    pub fn symbol(self) -> (r: char)
        ensures
            r == mark_char(self),
    {
        match self {
            PlayerMark::X => 'X',
            PlayerMark::O => 'O',
        }
    }
}

/// Index of (row, col) in the row-major cell sequence.
pub open spec fn cell_index(row: int, col: int) -> int {
    3 * row + col
}

/// A board is full when no empty cell remains.
pub open spec fn board_full(b: Seq<Cell>) -> bool {
    forall|i: int| 0 <= i < 9 ==> b[i] != Cell::Empty
}

/// 1 when the cell carries `m`, 0 otherwise.
pub open spec fn mark_ind(c: Cell, m: PlayerMark) -> int {
    if c == Cell::Marked(m) {
        1
    } else {
        0
    }
}

/// How many cells of the board carry `m`.
pub open spec fn mark_count(b: Seq<Cell>, m: PlayerMark) -> int
    recommends
        b.len() == 9,
{
    mark_ind(b[0], m) + mark_ind(b[1], m) + mark_ind(b[2], m) + mark_ind(b[3], m) + mark_ind(
        b[4],
        m,
    ) + mark_ind(b[5], m) + mark_ind(b[6], m) + mark_ind(b[7], m) + mark_ind(b[8], m)
}

/// Marking an empty cell adds one mark for its player and none for the
/// other player.
pub proof fn lemma_mark_count_update(b: Seq<Cell>, i: int, m: PlayerMark)
    requires
        b.len() == 9,
        0 <= i < 9,
        b[i] == Cell::Empty,
    ensures
        mark_count(b.update(i, Cell::Marked(m)), m) == mark_count(b, m) + 1,
        mark_count(b.update(i, Cell::Marked(m)), opposite_mark(m)) == mark_count(
            b,
            opposite_mark(m),
        ),
{
}

/// The three-line text form of a board: each row as its three cell
/// characters followed by a newline.
pub open spec fn render_spec(b: Seq<Cell>) -> Seq<char>
    recommends
        b.len() == 9,
{
    seq![
        cell_char(b[0]),
        cell_char(b[1]),
        cell_char(b[2]),
        '\n',
        cell_char(b[3]),
        cell_char(b[4]),
        cell_char(b[5]),
        '\n',
        cell_char(b[6]),
        cell_char(b[7]),
        cell_char(b[8]),
        '\n',
    ]
}

/// Rendering reads nothing but the cells: boards with the same cells
/// render to the same text.
pub proof fn lemma_render_deterministic(a: Seq<Cell>, b: Seq<Cell>)
    requires
        a =~= b,
    ensures
        render_spec(a) == render_spec(b),
{
}

/// The one-character text of a cell.
fn cell_str(c: Cell) -> (r: &'static str)
    ensures
        r@ == seq![cell_char(c)],
{
    match c {
        Cell::Empty => {
            let s = " ";
            proof {
                reveal_strlit(" ");
                assert(s@ =~= seq![' ']);
            }
            s
        },
        Cell::Marked(PlayerMark::X) => {
            let s = "X";
            proof {
                reveal_strlit("X");
                assert(s@ =~= seq!['X']);
            }
            s
        },
        Cell::Marked(PlayerMark::O) => {
            let s = "O";
            proof {
                reveal_strlit("O");
                assert(s@ =~= seq!['O']);
            }
            s
        },
    }
}

/// The 3-by-3 grid for one game, stored row-major: the cell at
/// (row, col) sits at index `3 * row + col` of the view.
pub struct Board {
    cells: Vec<Cell>,
}

impl View for Board {
    type V = Seq<Cell>;

    closed spec fn view(&self) -> Seq<Cell> {
        self.cells@
    }
}

impl Board {
    /// A board is well formed when it holds exactly nine cells.
    pub open spec fn wf(&self) -> bool {
        self@.len() == 9
    }

    /// An all-empty board.
    pub fn new() -> (r: Board)
        ensures
            r.wf(),
            forall|i: int| 0 <= i < 9 ==> r@[i] == Cell::Empty,
    {
        let mut cells: Vec<Cell> = Vec::new();
        cells.push(Cell::Empty);
        cells.push(Cell::Empty);
        cells.push(Cell::Empty);
        cells.push(Cell::Empty);
        cells.push(Cell::Empty);
        cells.push(Cell::Empty);
        cells.push(Cell::Empty);
        cells.push(Cell::Empty);
        cells.push(Cell::Empty);
        Board { cells }
    }

    /// The cell at flat index `i` of the row-major grid.
    pub fn cell(&self, i: usize) -> (r: Cell)
        requires
            self.wf(),
            i < 9,
        ensures
            r == self@[i as int],
    {
        self.cells[i]
    }

    /// Read the cell at (row, col); coordinates off the grid are
    /// rejected.
    pub fn get(&self, row: usize, col: usize) -> (r: Result<Cell, BoardError>)
        requires
            self.wf(),
        ensures
            row < 3 && col < 3 ==> r == Ok::<Cell, BoardError>(
                self@[cell_index(row as int, col as int)],
            ),
            !(row < 3 && col < 3) ==> r == Err::<Cell, BoardError>(BoardError::OutOfBounds),
    {
        if row < 3 && col < 3 {
            Ok(self.cells[3 * row + col])
        } else {
            Err(BoardError::OutOfBounds)
        }
    }

    /// Mark the cell at (row, col) for `mark` when it is empty;
    /// otherwise report exactly what went wrong and leave the board
    /// unchanged.
    pub fn place(&mut self, row: usize, col: usize, mark: PlayerMark) -> (r: Result<
        (),
        BoardError,
    >)
        requires
            old(self).wf(),
        ensures
            final(self).wf(),
            row < 3 && col < 3 && old(self)@[cell_index(row as int, col as int)] == Cell::Empty
                ==> r == Ok::<(), BoardError>(()) && final(self)@ == old(self)@.update(
                cell_index(row as int, col as int),
                Cell::Marked(mark),
            ),
            !(row < 3 && col < 3) ==> r == Err::<(), BoardError>(BoardError::OutOfBounds)
                && final(self)@ == old(self)@,
            row < 3 && col < 3 && old(self)@[cell_index(row as int, col as int)] != Cell::Empty
                ==> r == Err::<(), BoardError>(BoardError::CellOccupied)
                && final(self)@ == old(self)@,
    {
        if row < 3 && col < 3 {
            let i = 3 * row + col;
            match self.cells[i] {
                Cell::Empty => {
                    self.cells[i] = Cell::Marked(mark);
                    Ok(())
                },
                Cell::Marked(_) => Err(BoardError::CellOccupied),
            }
        } else {
            Err(BoardError::OutOfBounds)
        }
    }

    /// Whether every cell carries a mark.
    pub fn is_full(&self) -> (r: bool)
        requires
            self.wf(),
        ensures
            r == board_full(self@),
    {
        let mut i: usize = 0;
        while i < 9
            invariant
                self.wf(),
                i <= 9,
                forall|j: int| 0 <= j < i ==> self@[j] != Cell::Empty,
            decreases 9 - i,
        {
            match self.cells[i] {
                Cell::Empty => {
                    return false;
                },
                Cell::Marked(_) => {},
            }
            i = i + 1;
        }
        true
    }

    /// The three-line text form of the board.
    pub fn render(&self) -> (r: String)
        requires
            self.wf(),
        ensures
            r@ == render_spec(self@),
    {
        let newline = "\n";
        proof {
            reveal_strlit("\n");
            assert(newline@ =~= seq!['\n']);
        }
        let mut out = String::new();
        out.append(cell_str(self.cells[0]));
        out.append(cell_str(self.cells[1]));
        out.append(cell_str(self.cells[2]));
        out.append(newline);
        out.append(cell_str(self.cells[3]));
        out.append(cell_str(self.cells[4]));
        out.append(cell_str(self.cells[5]));
        out.append(newline);
        out.append(cell_str(self.cells[6]));
        out.append(cell_str(self.cells[7]));
        out.append(cell_str(self.cells[8]));
        out.append(newline);
        proof {
            assert(out@ =~= render_spec(self@));
        }
        out
    }
}

} // verus!
