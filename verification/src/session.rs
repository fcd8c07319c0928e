//! One game session: the board, the human's role, and the cached status,
//! advanced one full turn at a time. A human move is applied, the status
//! re-evaluated, and while the game goes on the opponent answers at once.

use vstd::prelude::*;
use crate::board::{
    Board, Cell, GameStatus, empty_board, human_sym, opponent_sym, spec_status,
};
use crate::evaluator::{evaluate, lemma_empty_in_progress};
use crate::selector::{scan_target, select_move};

verus! {

/// Why a human move was not applied.
#[derive(Clone, Copy, Debug, PartialEq, Eq, Structural)]
pub enum MoveError {
    /// The cell index is off the board, or the cell is already occupied.
    InvalidMove,
    /// The game has ended; no further move is accepted.
    GameOver,
}

/// A game session. The cached status always agrees with the board.
pub struct Game {
    pub board: Board,
    pub human_is_x: bool,
    pub status: GameStatus,
}

impl Game {
    /// The board has its nine cells and the cached status is the one the
    /// board itself determines.
    pub open spec fn wf(&self) -> bool {
        &&& self.board.wf()
        &&& self.status == spec_status(self.board@, self.human_is_x)
    }

    /// Start a fresh game with the given role. The board starts empty; when
    /// the human plays O, the opponent makes its opening move before the
    /// session is handed back. Either way the new game is still in progress.
    pub fn start_game(human_is_x: bool) -> (g: Game)
        ensures
            g.wf(),
            g.human_is_x == human_is_x,
            g.status == GameStatus::InProgress,
            human_is_x ==> g.board@ == empty_board(),
            !human_is_x ==> exists|c: int|
                0 <= c < 9 && g.board@ == empty_board().update(c, Cell::X),
    {
        let mut board = Board::new();
        proof {
            lemma_empty_in_progress(board@, human_is_x);
        }
        if !human_is_x {
            let c = select_move(&board, human_is_x);
            board.cells[c] = Cell::X;
            proof {
                assert(board@ == empty_board().update(c as int, Cell::X));
            }
        }
        let status = evaluate(&board, human_is_x);
        let g = Game { board, human_is_x, status };
        proof {
            if !human_is_x {
                lemma_one_counter_in_progress(g.board@, human_is_x);
            }
        }
        g
    }

    /// Apply the human's move at cell `i` and, while the game then still
    /// goes on, the opponent's answer; the status is re-evaluated after each
    /// placement. A move is refused without any change when the game is over
    /// or when `i` does not name an empty cell on the board.
    pub fn apply_human_move(&mut self, i: usize) -> (r: Result<GameStatus, MoveError>)
        requires
            old(self).wf(),
        ensures
            final(self).wf(),
            final(self).human_is_x == old(self).human_is_x,
            match r {
                Err(MoveError::GameOver) => old(self).status != GameStatus::InProgress
                    && *final(self) == *old(self),
                Err(MoveError::InvalidMove) => old(self).status == GameStatus::InProgress && (i >= 9
                    || old(self).board@[i as int] != Cell::Empty) && *final(self) == *old(self),
                Ok(st) => {
                    let h = old(self).human_is_x;
                    let mid = old(self).board@.update(i as int, human_sym(h));
                    &&& old(self).status == GameStatus::InProgress
                    &&& i < 9
                    &&& old(self).board@[i as int] == Cell::Empty
                    &&& st == final(self).status
                    &&& if spec_status(mid, h) != GameStatus::InProgress {
                        final(self).board@ == mid
                    } else {
                        &&& exists|c: int|
                            0 <= c < 9 && mid[c] == Cell::Empty && final(self).board@ == mid.update(
                                c,
                                opponent_sym(h),
                            )
                        &&& (scan_target(mid, opponent_sym(h), human_sym(h), 0) matches Some(t)
                            ==> final(self).board@ == mid.update(t, opponent_sym(h)))
                        &&& scan_target(mid, opponent_sym(h), human_sym(h), 0) is None ==> (
                        scan_target(mid, human_sym(h), opponent_sym(h), 0) matches Some(t)
                            ==> final(self).board@ == mid.update(t, opponent_sym(h)))
                    }
                },
            },
    {
        if self.status != GameStatus::InProgress {
            return Err(MoveError::GameOver);
        }
        if i >= 9 {
            return Err(MoveError::InvalidMove);
        }
        if self.board.cells[i] != Cell::Empty {
            return Err(MoveError::InvalidMove);
        }
        let h = self.human_is_x;
        self.board.cells[i] = if h {
            Cell::X
        } else {
            Cell::O
        };
        let st = evaluate(&self.board, h);
        self.status = st;
        if st == GameStatus::InProgress {
            let c = select_move(&self.board, h);
            let ghost mid = self.board@;
            self.board.cells[c] = if h {
                Cell::O
            } else {
                Cell::X
            };
            proof {
                assert(self.board@ == mid.update(c as int, opponent_sym(h)));
            }
            let st2 = evaluate(&self.board, h);
            self.status = st2;
            Ok(st2)
        } else {
            Ok(st)
        }
    }
}

/// A board holding exactly one counter is still in progress: a single
/// counter owns no triple, and eight cells stay empty.
proof fn lemma_one_counter_in_progress(b: Seq<Cell>, human_is_x: bool)
    requires
        b.len() == 9,
        exists|c: int| 0 <= c < 9 && b == empty_board().update(c, Cell::X),
    ensures
        spec_status(b, human_is_x) == GameStatus::InProgress,
{
    let c = choose|c: int| 0 <= c < 9 && b == empty_board().update(c, Cell::X);
    assert(crate::board::count_sym(b, Cell::X) < 3) by {
        lemma_count_single(b, Cell::X, c);
    }
    assert(crate::board::count_sym(b, Cell::O) < 3) by {
        lemma_count_none(b, Cell::O);
    }
    crate::evaluator::lemma_no_win_few_counters(b, human_is_x);
    assert(!crate::board::is_full(b)) by {
        if c == 0 {
            assert(b[1] == Cell::Empty);
        } else {
            assert(b[0] == Cell::Empty);
        }
    }
}

/// A board whose cells other than `c` miss the symbol `s` counts `s` at
/// most once.
proof fn lemma_count_single(b: Seq<Cell>, s: Cell, c: int)
    requires
        forall|i: int| 0 <= i < b.len() && i != c ==> b[i] != s,
    ensures
        crate::board::count_sym(b, s) <= 1,
    decreases b.len(),
{
    if b.len() > 0 {
        if c == b.len() - 1 {
            lemma_count_none(b.drop_last(), s);
        } else {
            lemma_count_single(b.drop_last(), s, c);
        }
    }
}

/// A board without the symbol `s` counts it zero times.
proof fn lemma_count_none(b: Seq<Cell>, s: Cell)
    requires
        forall|i: int| 0 <= i < b.len() ==> b[i] != s,
    ensures
        crate::board::count_sym(b, s) == 0,
    decreases b.len(),
{
    if b.len() > 0 {
        lemma_count_none(b.drop_last(), s);
    }
}

} // verus!
