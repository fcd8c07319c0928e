use tictactoe::board::{Board, Cell, GameStatus};
use tictactoe::evaluator::evaluate;
use tictactoe::selector::select_move;
use tictactoe::session::{Game, MoveError};

fn board_of(cells: [Cell; 9]) -> Board {
    Board { cells: cells.to_vec() }
}

const E: Cell = Cell::Empty;
const X: Cell = Cell::X;
const O: Cell = Cell::O;

const TRIPLES: [[usize; 3]; 8] = [
    [0, 1, 2],
    [3, 4, 5],
    [6, 7, 8],
    [0, 3, 6],
    [1, 4, 7],
    [2, 5, 8],
    [0, 4, 8],
    [2, 4, 6],
];

#[test]
fn evaluate_is_idempotent() {
    let boards = [
        [E, E, E, E, E, E, E, E, E],
        [X, X, X, O, O, E, E, E, E],
        [X, O, X, X, O, O, O, X, X],
        [X, O, E, E, O, E, E, E, X],
    ];
    for cells in boards {
        for human_is_x in [true, false] {
            let b = board_of(cells);
            let first = evaluate(&b, human_is_x);
            let second = evaluate(&b, human_is_x);
            assert_eq!(first, second);
        }
    }
}

#[test]
fn every_winning_triple_is_detected() {
    for triple in TRIPLES {
        for sym in [X, O] {
            let mut cells = [E; 9];
            for i in triple {
                cells[i] = sym;
            }
            for human_is_x in [true, false] {
                let status = evaluate(&board_of(cells), human_is_x);
                let expected = if (sym == X) == human_is_x {
                    GameStatus::HumanWon
                } else {
                    GameStatus::OpponentWon
                };
                assert_eq!(status, expected);
            }
        }
    }
}

#[test]
fn full_board_without_winner_is_a_draw() {
    // X O X / X O X / O X O: no row, column or diagonal is one symbol's.
    let cells = [X, O, X, X, O, X, O, X, O];
    assert_eq!(evaluate(&board_of(cells), true), GameStatus::Draw);
    assert_eq!(evaluate(&board_of(cells), false), GameStatus::Draw);
}

#[test]
fn empty_board_is_in_progress() {
    assert_eq!(evaluate(&board_of([E; 9]), true), GameStatus::InProgress);
    assert_eq!(evaluate(&board_of([E; 9]), false), GameStatus::InProgress);
}

#[test]
fn fewer_than_three_counters_never_win() {
    let boards = [
        [X, X, E, O, O, E, E, E, E],
        [X, E, E, E, O, E, E, E, E],
        [E, E, O, E, X, E, X, O, E],
    ];
    for cells in boards {
        for human_is_x in [true, false] {
            let status = evaluate(&board_of(cells), human_is_x);
            assert_ne!(status, GameStatus::HumanWon);
            assert_ne!(status, GameStatus::OpponentWon);
        }
    }
}

#[test]
fn selector_returns_an_empty_cell() {
    let boards = [
        [E, E, E, E, E, E, E, E, E],
        [X, O, E, E, X, E, E, E, O],
        [X, O, X, O, X, O, E, E, E],
        [X, O, X, X, O, O, O, X, E],
    ];
    for cells in boards {
        for human_is_x in [true, false] {
            let b = board_of(cells);
            if evaluate(&b, human_is_x) != GameStatus::InProgress {
                continue;
            }
            let r = select_move(&b, human_is_x);
            assert!(r < 9);
            assert_eq!(cells[r], E);
        }
    }
}

#[test]
fn selector_takes_the_single_remaining_cell() {
    // One empty cell left and nobody has won: the fallback has exactly one
    // legal answer.
    let cells = [X, O, X, X, O, O, O, X, E];
    let r = select_move(&board_of(cells), true);
    assert_eq!(r, 8);
}

#[test]
fn selector_wins_when_able() {
    // The opponent plays X and owns cells 0 and 1; the forcing pair (0, 1)
    // points at cell 2, which completes the top row.
    let cells = [X, X, E, E, E, E, E, E, E];
    let r = select_move(&board_of(cells), false);
    assert_eq!(r, 2);
}

#[test]
fn selector_blocks_when_threatened() {
    // The human plays X and owns cells 0 and 1; the opponent O has no win
    // of its own and must take cell 2.
    let cells = [X, X, E, E, O, E, E, E, E];
    let r = select_move(&board_of(cells), true);
    assert_eq!(r, 2);
}

#[test]
fn selector_prefers_winning_over_blocking() {
    // O can win through the pair (1, 4) aiming at 7, even though the human
    // X also threatens the top row at 2.
    let cells = [X, O, E, E, O, E, E, E, X];
    let r = select_move(&board_of(cells), true);
    assert_eq!(r, 7);
}

#[test]
fn start_game_as_x_leaves_the_board_empty() {
    let g = Game::start_game(true);
    assert!(g.human_is_x);
    assert_eq!(g.status, GameStatus::InProgress);
    assert_eq!(g.board.cells, vec![E; 9]);
}

#[test]
fn start_game_as_o_lets_the_opponent_open() {
    let g = Game::start_game(false);
    assert!(!g.human_is_x);
    assert_eq!(g.status, GameStatus::InProgress);
    let placed: Vec<usize> = (0..9).filter(|&i| g.board.cells[i] != E).collect();
    assert_eq!(placed.len(), 1);
    assert_eq!(g.board.cells[placed[0]], X);
}

#[test]
fn move_out_of_range_is_invalid() {
    let mut g = Game::start_game(true);
    assert_eq!(g.apply_human_move(9), Err(MoveError::InvalidMove));
    assert_eq!(g.board.cells, vec![E; 9]);
    assert_eq!(g.status, GameStatus::InProgress);
}

#[test]
fn move_on_an_occupied_cell_is_invalid() {
    let mut g = Game::start_game(true);
    g.apply_human_move(4).unwrap();
    let snapshot = g.board.cells.clone();
    assert_eq!(g.apply_human_move(4), Err(MoveError::InvalidMove));
    assert_eq!(g.board.cells, snapshot);
}

#[test]
fn move_after_the_game_ended_is_refused() {
    // Force a finished game directly: the human already owns the top row.
    let mut g = Game {
        board: board_of([X, X, X, O, O, E, E, E, E]),
        human_is_x: true,
        status: GameStatus::HumanWon,
    };
    assert_eq!(g.apply_human_move(5), Err(MoveError::GameOver));
    assert_eq!(g.board.cells, vec![X, X, X, O, O, E, E, E, E]);
}

#[test]
fn full_game_reaches_a_valid_end() {
    let mut g = Game::start_game(true);
    let first = g.apply_human_move(0).unwrap();
    assert_eq!(g.board.cells[0], X);
    assert_eq!(first, GameStatus::InProgress);
    let occupied = (0..9).filter(|&i| g.board.cells[i] != E).count();
    assert_eq!(occupied, 2);
    let opponent_cell = (1..9).find(|&i| g.board.cells[i] == O);
    assert!(opponent_cell.is_some());

    let mut human_moves = 1;
    while g.status == GameStatus::InProgress {
        let cell = (0..9).find(|&i| g.board.cells[i] == E).unwrap();
        g.apply_human_move(cell).unwrap();
        human_moves += 1;
        assert!(human_moves <= 5);
    }
    assert!(matches!(
        g.status,
        GameStatus::HumanWon | GameStatus::OpponentWon | GameStatus::Draw
    ));
    let total = (0..9).filter(|&i| g.board.cells[i] != E).count();
    assert!(total <= 9);
}

#[test]
fn status_default_is_in_progress() {
    assert_eq!(GameStatus::default(), GameStatus::InProgress);
}
