//! The opponent's move selector: a greedy one-ply heuristic. It completes a
//! winning line of its own when the forcing-pair table reveals one, else it
//! occupies the cell the human needs to complete a line, else it picks a
//! random empty cell.

use vstd::prelude::*;
use crate::board::{
    Board, Cell, GameStatus, human_sym, is_full, is_winner, opponent_sym, spec_status, wins_line,
};

verus! {

/// The forcing-pair table, flattened in scan order: for each origin cell in
/// increasing order, the curated "forcing neighbours" the heuristic checks.
/// A pair `(o, n)` with both cells owned by one symbol points at the third
/// cell `2*n - o` of the line through `o` and `n`.
pub open spec fn forcing_pairs() -> Seq<(int, int)> {
    seq![
        (0int, 1int),
        (0int, 3int),
        (0int, 4int),
        (1int, 4int),
        (2int, 1int),
        (2int, 4int),
        (2int, 5int),
        (3int, 4int),
        (5int, 4int),
        (6int, 3int),
        (6int, 4int),
        (6int, 7int),
        (7int, 4int),
        (8int, 4int),
        (8int, 5int),
        (8int, 7int),
    ]
}

/// The first hit of the forcing-pair scan from entry `k` on: the target cell
/// `2*n - o` of the first pair `(o, n)` whose two cells `mine` occupies and
/// whose target lies on the board and is not occupied by `theirs`.
pub open spec fn scan_target(b: Seq<Cell>, mine: Cell, theirs: Cell, k: int) -> Option<int>
    decreases 16 - k,
{
    if k < 0 || k >= 16 {
        None
    } else {
        let o = forcing_pairs()[k].0;
        let n = forcing_pairs()[k].1;
        let t = 2 * n - o;
        if b[o] == mine && b[n] == mine && 0 <= t < 9 && b[t] != theirs {
            Some(t)
        } else {
            scan_target(b, mine, theirs, k + 1)
        }
    }
}

/// Every entry of the forcing-pair table names two cells of the board, and
/// its target cell lies on the board as well.
pub(crate) proof fn lemma_pair_facts(k: int)
    requires
        0 <= k < 16,
    ensures
        0 <= forcing_pairs()[k].0 < 9,
        0 <= forcing_pairs()[k].1 < 9,
        0 <= 2 * forcing_pairs()[k].1 - forcing_pairs()[k].0 < 9,
{
}

/// A forcing pair and its target always form one of the eight winning
/// triples, so a symbol occupying all three of them has won.
pub(crate) proof fn lemma_pair_completes_line(b: Seq<Cell>, s: Cell, k: int)
    requires
        0 <= k < 16,
        b[forcing_pairs()[k].0] == s,
        b[forcing_pairs()[k].1] == s,
        b[2 * forcing_pairs()[k].1 - forcing_pairs()[k].0] == s,
    ensures
        is_winner(b, s),
{
    if k == 0 {
        assert(wins_line(b, s, 0));
    } else if k == 1 {
        assert(wins_line(b, s, 3));
    } else if k == 2 {
        assert(wins_line(b, s, 6));
    } else if k == 3 {
        assert(wins_line(b, s, 4));
    } else if k == 4 {
        assert(wins_line(b, s, 0));
    } else if k == 5 {
        assert(wins_line(b, s, 7));
    } else if k == 6 {
        assert(wins_line(b, s, 5));
    } else if k == 7 {
        assert(wins_line(b, s, 1));
    } else if k == 8 {
        assert(wins_line(b, s, 1));
    } else if k == 9 {
        assert(wins_line(b, s, 3));
    } else if k == 10 {
        assert(wins_line(b, s, 7));
    } else if k == 11 {
        assert(wins_line(b, s, 2));
    } else if k == 12 {
        assert(wins_line(b, s, 4));
    } else if k == 13 {
        assert(wins_line(b, s, 6));
    } else if k == 14 {
        assert(wins_line(b, s, 5));
    } else {
        assert(wins_line(b, s, 2));
    }
}

/// Relies on rand::random_range over the range `0..n`: the sampled value
/// lies in that range; the call panics only on an empty range, which the
/// precondition rules out.
#[verifier::external_body]
fn random_below(n: usize) -> (r: usize)
    requires
        1 <= n,
    ensures
        r < n,
{
    rand::random_range(0..n)
}

/// Run the forcing-pair scan for the symbol `mine` against the symbol
/// `theirs` and return the first target found, if any.
fn scan_for_pair(board: &Board, mine: Cell, theirs: Cell) -> (r: Option<usize>)
    requires
        board.wf(),
    ensures
        match r {
            Some(t) => t < 9 && scan_target(board@, mine, theirs, 0) == Some(t as int)
                && board@[t as int] != theirs && (board@[t as int] == mine ==> is_winner(
                board@,
                mine,
            )),
            None => scan_target(board@, mine, theirs, 0) is None,
        },
{
    let pairs: Vec<(usize, usize)> = vec![
        (0, 1),
        (0, 3),
        (0, 4),
        (1, 4),
        (2, 1),
        (2, 4),
        (2, 5),
        (3, 4),
        (5, 4),
        (6, 3),
        (6, 4),
        (6, 7),
        (7, 4),
        (8, 4),
        (8, 5),
        (8, 7),
    ];
    assert(forall|j: int|
        0 <= j < 16 ==> pairs@[j].0 as int == forcing_pairs()[j].0 && pairs@[j].1 as int
            == forcing_pairs()[j].1);
    let mut k: usize = 0;
    while k < 16
        invariant
            board.wf(),
            pairs@.len() == 16,
            forall|j: int|
                0 <= j < 16 ==> pairs@[j].0 as int == forcing_pairs()[j].0 && pairs@[j].1 as int
                    == forcing_pairs()[j].1,
            k <= 16,
            scan_target(board@, mine, theirs, k as int) == scan_target(board@, mine, theirs, 0),
        decreases 16 - k,
    {
        proof {
            lemma_pair_facts(k as int);
        }
        let (o, n) = pairs[k];
        let t = 2 * n - o;
        if board.cells[o] == mine && board.cells[n] == mine && t < 9 && board.cells[t] != theirs {
            proof {
                if board@[t as int] == mine {
                    lemma_pair_completes_line(board@, mine, k as int);
                }
            }
            return Some(t);
        }
        k += 1;
    }
    None
}

/// Pick the opponent's next cell: complete an own line if the forcing-pair
/// scan finds one, else block the line the human could complete, else take a
/// uniformly random empty cell. The chosen cell is always empty, and
/// whenever one of the two scans hits, its target is the cell returned.
pub fn select_move(board: &Board, human_is_x: bool) -> (r: usize)
    requires
        board.wf(),
        spec_status(board@, human_is_x) == GameStatus::InProgress,
    ensures
        r < 9,
        board@[r as int] == Cell::Empty,
        (scan_target(board@, opponent_sym(human_is_x), human_sym(human_is_x), 0) matches Some(t)
            ==> r as int == t),
        scan_target(board@, opponent_sym(human_is_x), human_sym(human_is_x), 0) is None ==> (
        scan_target(board@, human_sym(human_is_x), opponent_sym(human_is_x), 0) matches Some(t)
            ==> r as int == t),
{
    let me = if human_is_x {
        Cell::O
    } else {
        Cell::X
    };
    let you = if human_is_x {
        Cell::X
    } else {
        Cell::O
    };
    if let Some(t) = scan_for_pair(board, me, you) {
        proof {
            assert(board@[t as int] != me);
            assert(board@[t as int] == Cell::Empty);
        }
        return t;
    }
    if let Some(t) = scan_for_pair(board, you, me) {
        proof {
            assert(board@[t as int] != you);
            assert(board@[t as int] == Cell::Empty);
        }
        return t;
    }
    let mut empties: Vec<usize> = Vec::new();
    let mut i: usize = 0;
    while i < 9
        invariant
            board.wf(),
            i <= 9,
            forall|m: int|
                0 <= m < empties@.len() ==> empties@[m] < 9 && board@[empties@[m] as int]
                    == Cell::Empty,
            forall|j: int| #![auto]
                0 <= j < i && board@[j] == Cell::Empty ==> exists|m: int|
                    0 <= m < empties@.len() && empties@[m] == j,
        decreases 9 - i,
    {
        if board.cells[i] == Cell::Empty {
            let ghost prev = empties@;
            empties.push(i);
            proof {
                assert forall|j: int|
                    0 <= j < i + 1 && board@[j] == Cell::Empty implies exists|m: int|
                    0 <= m < empties@.len() && empties@[m] == j by {
                    if j == i {
                        assert(empties@[prev.len() as int] == i);
                    } else {
                        let m = choose|m: int| 0 <= m < prev.len() && prev[m] == j;
                        assert(empties@[m] == j);
                    }
                }
            }
        }
        i += 1;
    }
    proof {
        assert(!is_full(board@));
        let w = choose|w: int| 0 <= w < 9 && board@[w] == Cell::Empty;
        assert(exists|m: int| 0 <= m < empties@.len() && empties@[m] == w);
    }
    let idx = random_below(empties.len());
    empties[idx]
}

} // verus!
