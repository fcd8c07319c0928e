//! The 3x3 board, its two symbols, and the mathematical model of a finished
//! or ongoing game: the eight winning triples and the status derived from
//! them.

use vstd::prelude::*;

verus! {

/// One cell of the board: occupied by a symbol, or empty.
#[derive(Clone, Copy, Debug, PartialEq, Eq, Structural)]
pub enum Cell {
    X,
    O,
    Empty,
}

/// The outcome of evaluating a board from the human player's point of view.
#[derive(Clone, Copy, Debug, PartialEq, Eq, Structural)]
pub enum GameStatus {
    InProgress,
    HumanWon,
    OpponentWon,
    Draw,
}

impl Default for GameStatus {
    /// A fresh game is still in progress.
    fn default() -> (s: Self)
        ensures
            s == GameStatus::InProgress,
    {
        GameStatus::InProgress
    }
}

/// Nine cells in row-major order: index = row * 3 + column.
#[derive(Debug)]
pub struct Board {
    pub cells: Vec<Cell>,
}

impl View for Board {
    type V = Seq<Cell>;

    open spec fn view(&self) -> Seq<Cell> {
        self.cells@
    }
}

impl Board {
    /// A board always holds exactly nine cells.
    pub open spec fn wf(&self) -> bool {
        self.cells@.len() == 9
    }

    /// A board with every cell empty.
    pub fn new() -> (b: Board)
        ensures
            b.wf(),
            b@ =~= empty_board(),
    {
        let cells = vec![
            Cell::Empty,
            Cell::Empty,
            Cell::Empty,
            Cell::Empty,
            Cell::Empty,
            Cell::Empty,
            Cell::Empty,
            Cell::Empty,
            Cell::Empty,
        ];
        Board { cells }
    }
}

/// The all-empty board.
pub open spec fn empty_board() -> Seq<Cell> {
    Seq::new(9, |i: int| Cell::Empty)
}

/// The eight winning triples: three rows, three columns, two diagonals.
/// Each triple lists its cell indices in increasing order.
pub open spec fn lines() -> Seq<(int, int, int)> {
    seq![
        (0int, 1int, 2int),
        (3int, 4int, 5int),
        (6int, 7int, 8int),
        (0int, 3int, 6int),
        (1int, 4int, 7int),
        (2int, 5int, 8int),
        (0int, 4int, 8int),
        (2int, 4int, 6int),
    ]
}

/// Symbol `s` fully occupies the winning triple numbered `k`.
pub open spec fn wins_line(b: Seq<Cell>, s: Cell, k: int) -> bool {
    let l = lines()[k];
    b[l.0] == s && b[l.1] == s && b[l.2] == s
}

/// Symbol `s` fully occupies some winning triple.
pub open spec fn is_winner(b: Seq<Cell>, s: Cell) -> bool {
    exists|k: int| 0 <= k < 8 && wins_line(b, s, k)
}

/// No cell of the board is empty.
pub open spec fn is_full(b: Seq<Cell>) -> bool {
    forall|i: int| 0 <= i < b.len() ==> b[i] != Cell::Empty
}

/// The symbol the human plays.
pub open spec fn human_sym(human_is_x: bool) -> Cell {
    if human_is_x {
        Cell::X
    } else {
        Cell::O
    }
}

/// The symbol the built-in opponent plays.
pub open spec fn opponent_sym(human_is_x: bool) -> Cell {
    if human_is_x {
        Cell::O
    } else {
        Cell::X
    }
}

/// The status of a board for a given role: a win for whoever owns a full
/// triple (X is examined first: on an ill-formed board where both symbols
/// own a triple, X takes precedence), else a draw when no cell is empty,
/// else still in progress.
pub open spec fn spec_status(b: Seq<Cell>, human_is_x: bool) -> GameStatus {
    if is_winner(b, Cell::X) {
        if human_is_x {
            GameStatus::HumanWon
        } else {
            GameStatus::OpponentWon
        }
    } else if is_winner(b, Cell::O) {
        if human_is_x {
            GameStatus::OpponentWon
        } else {
            GameStatus::HumanWon
        }
    } else if is_full(b) {
        GameStatus::Draw
    } else {
        GameStatus::InProgress
    }
}

/// How many cells of the board hold the symbol `s`.
pub open spec fn count_sym(b: Seq<Cell>, s: Cell) -> nat
    decreases b.len(),
{
    if b.len() == 0 {
        0
    } else {
        count_sym(b.drop_last(), s) + if b.last() == s {
            1nat
        } else {
            0nat
        }
    }
}

/// A cell holding `s` contributes to the count of `s`.
pub(crate) proof fn lemma_count_at_least_one(b: Seq<Cell>, s: Cell, i: int)
    requires
        0 <= i < b.len(),
        b[i] == s,
    ensures
        count_sym(b, s) >= 1,
    decreases b.len(),
{
    if i + 1 < b.len() {
        lemma_count_at_least_one(b.drop_last(), s, i);
    }
}

/// Two distinct cells holding `s` give a count of at least two.
pub(crate) proof fn lemma_count_at_least_two(b: Seq<Cell>, s: Cell, i: int, j: int)
    requires
        0 <= i < j < b.len(),
        b[i] == s,
        b[j] == s,
    ensures
        count_sym(b, s) >= 2,
    decreases b.len(),
{
    if j + 1 < b.len() {
        lemma_count_at_least_two(b.drop_last(), s, i, j);
    } else {
        lemma_count_at_least_one(b.drop_last(), s, i);
    }
}

/// Three distinct cells holding `s` give a count of at least three.
pub(crate) proof fn lemma_count_at_least_three(b: Seq<Cell>, s: Cell, i: int, j: int, k: int)
    requires
        0 <= i < j < k < b.len(),
        b[i] == s,
        b[j] == s,
        b[k] == s,
    ensures
        count_sym(b, s) >= 3,
    decreases b.len(),
{
    if k + 1 < b.len() {
        lemma_count_at_least_three(b.drop_last(), s, i, j, k);
    } else {
        lemma_count_at_least_two(b.drop_last(), s, i, j);
    }
}

/// The three cells of each winning triple lie on the board and are listed in
/// strictly increasing order (so in particular they are distinct).
pub proof fn lemma_line_cells(k: int)
    requires
        0 <= k < 8,
    ensures
        0 <= lines()[k].0 < lines()[k].1 < lines()[k].2 < 9,
{
}

} // verus!
