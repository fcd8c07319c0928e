//! The status evaluator: decides from the nine cells and the human's role
//! whether the game is won, drawn or still in play, by testing each of the
//! eight winning triples for full containment.

use vstd::prelude::*;
use crate::board::{
    Board, Cell, GameStatus, count_sym, is_full, is_winner, lemma_count_at_least_three,
    lemma_line_cells, lines, spec_status, wins_line,
};

verus! {

/// True exactly when symbol `s` fully occupies the triple of cells
/// `a`, `b`, `c`.
fn triple_occupied(board: &Board, s: Cell, a: usize, b: usize, c: usize) -> (r: bool)
    requires
        board.wf(),
        a < 9,
        b < 9,
        c < 9,
    ensures
        r == (board@[a as int] == s && board@[b as int] == s && board@[c as int] == s),
{
    board.cells[a] == s && board.cells[b] == s && board.cells[c] == s
}

/// True exactly when symbol `s` owns some winning triple.
fn has_win(board: &Board, s: Cell) -> (r: bool)
    requires
        board.wf(),
    ensures
        r == is_winner(board@, s),
{
    let r = triple_occupied(board, s, 0, 1, 2) || triple_occupied(board, s, 3, 4, 5)
        || triple_occupied(board, s, 6, 7, 8) || triple_occupied(board, s, 0, 3, 6)
        || triple_occupied(board, s, 1, 4, 7) || triple_occupied(board, s, 2, 5, 8)
        || triple_occupied(board, s, 0, 4, 8) || triple_occupied(board, s, 2, 4, 6);
    proof {
        if r {
            assert(is_winner(board@, s)) by {
                if board@[0] == s && board@[1] == s && board@[2] == s {
                    assert(wins_line(board@, s, 0));
                } else if board@[3] == s && board@[4] == s && board@[5] == s {
                    assert(wins_line(board@, s, 1));
                } else if board@[6] == s && board@[7] == s && board@[8] == s {
                    assert(wins_line(board@, s, 2));
                } else if board@[0] == s && board@[3] == s && board@[6] == s {
                    assert(wins_line(board@, s, 3));
                } else if board@[1] == s && board@[4] == s && board@[7] == s {
                    assert(wins_line(board@, s, 4));
                } else if board@[2] == s && board@[5] == s && board@[8] == s {
                    assert(wins_line(board@, s, 5));
                } else if board@[0] == s && board@[4] == s && board@[8] == s {
                    assert(wins_line(board@, s, 6));
                } else {
                    assert(wins_line(board@, s, 7));
                }
            }
        } else {
            assert(!is_winner(board@, s)) by {
                if is_winner(board@, s) {
                    let k = choose|k: int| 0 <= k < 8 && wins_line(board@, s, k);
                    assert(false);
                }
            }
        }
    }
    r
}

/// True exactly when no cell of the board is empty.
fn board_full(board: &Board) -> (r: bool)
    requires
        board.wf(),
    ensures
        r == is_full(board@),
{
    let mut i: usize = 0;
    while i < 9
        invariant
            board.wf(),
            i <= 9,
            forall|j: int| 0 <= j < i ==> board@[j] != Cell::Empty,
        decreases 9 - i,
    {
        if board.cells[i] == Cell::Empty {
            return false;
        }
        i += 1;
    }
    true
}

/// Evaluate the board for the given role: a full triple of one symbol is
/// that symbol's win (mapped to the human or the opponent through the role),
/// else a full board is a draw, else the game goes on.
pub fn evaluate(board: &Board, human_is_x: bool) -> (s: GameStatus)
    requires
        board.wf(),
    ensures
        s == spec_status(board@, human_is_x),
{
    if has_win(board, Cell::X) {
        if human_is_x {
            GameStatus::HumanWon
        } else {
            GameStatus::OpponentWon
        }
    } else if has_win(board, Cell::O) {
        if human_is_x {
            GameStatus::OpponentWon
        } else {
            GameStatus::HumanWon
        }
    } else if board_full(board) {
        GameStatus::Draw
    } else {
        GameStatus::InProgress
    }
}

/// Evaluation is idempotent: any two evaluations of the same board for the
/// same role yield the same status, since each equals the status the board
/// itself determines.
pub proof fn lemma_evaluate_idempotent(
    b: Seq<Cell>,
    human_is_x: bool,
    s1: GameStatus,
    s2: GameStatus,
)
    requires
        s1 == spec_status(b, human_is_x),
        s2 == spec_status(b, human_is_x),
    ensures
        s1 == s2,
{
}

/// A board that holds nothing but `s` on one full winning triple, with every
/// other cell empty, evaluates to that symbol's win, mapped through the role.
pub proof fn lemma_win_detection(b: Seq<Cell>, s: Cell, k: int, human_is_x: bool)
    requires
        b.len() == 9,
        0 <= k < 8,
        s == Cell::X || s == Cell::O,
        wins_line(b, s, k),
        forall|i: int|
            0 <= i < 9 && i != lines()[k].0 && i != lines()[k].1 && i != lines()[k].2 ==> b[i]
                == Cell::Empty,
    ensures
        spec_status(b, human_is_x) == if (s == Cell::X) == human_is_x {
            GameStatus::HumanWon
        } else {
            GameStatus::OpponentWon
        },
{
    let other = if s == Cell::X {
        Cell::O
    } else {
        Cell::X
    };
    lemma_line_cells(k);
    assert(is_winner(b, s));
    assert(forall|i: int| 0 <= i < 9 ==> b[i] != other);
    assert(!is_winner(b, other)) by {
        if is_winner(b, other) {
            let k2 = choose|k2: int| 0 <= k2 < 8 && wins_line(b, other, k2);
            lemma_line_cells(k2);
            assert(false);
        }
    }
}

/// A fully occupied board on which neither symbol owns a winning triple is a
/// draw.
pub proof fn lemma_draw_detection(b: Seq<Cell>, human_is_x: bool)
    requires
        b.len() == 9,
        is_full(b),
        !is_winner(b, Cell::X),
        !is_winner(b, Cell::O),
    ensures
        spec_status(b, human_is_x) == GameStatus::Draw,
{
}

/// An all-empty board is still in progress: nobody has won and cells remain.
pub proof fn lemma_empty_in_progress(b: Seq<Cell>, human_is_x: bool)
    requires
        b.len() == 9,
        forall|i: int| 0 <= i < 9 ==> b[i] == Cell::Empty,
    ensures
        spec_status(b, human_is_x) == GameStatus::InProgress,
{
    assert(!is_winner(b, Cell::X)) by {
        if is_winner(b, Cell::X) {
            let k = choose|k: int| 0 <= k < 8 && wins_line(b, Cell::X, k);
            lemma_line_cells(k);
            assert(false);
        }
    }
    assert(!is_winner(b, Cell::O)) by {
        if is_winner(b, Cell::O) {
            let k = choose|k: int| 0 <= k < 8 && wins_line(b, Cell::O, k);
            lemma_line_cells(k);
            assert(false);
        }
    }
    assert(!is_full(b)) by {
        assert(b[0] == Cell::Empty);
    }
}

/// No false positives: while each symbol occupies fewer than three cells,
/// the board never evaluates to a win for either side.
pub proof fn lemma_no_win_few_counters(b: Seq<Cell>, human_is_x: bool)
    requires
        b.len() == 9,
        count_sym(b, Cell::X) < 3,
        count_sym(b, Cell::O) < 3,
    ensures
        spec_status(b, human_is_x) != GameStatus::HumanWon,
        spec_status(b, human_is_x) != GameStatus::OpponentWon,
{
    assert(!is_winner(b, Cell::X)) by {
        if is_winner(b, Cell::X) {
            let k = choose|k: int| 0 <= k < 8 && wins_line(b, Cell::X, k);
            lemma_line_cells(k);
            lemma_count_at_least_three(b, Cell::X, lines()[k].0, lines()[k].1, lines()[k].2);
            assert(false);
        }
    }
    assert(!is_winner(b, Cell::O)) by {
        if is_winner(b, Cell::O) {
            let k = choose|k: int| 0 <= k < 8 && wins_line(b, Cell::O, k);
            lemma_line_cells(k);
            lemma_count_at_least_three(b, Cell::O, lines()[k].0, lines()[k].1, lines()[k].2);
            assert(false);
        }
    }
}

} // verus!
