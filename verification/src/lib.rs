//! A verified tic-tac-toe engine: a status evaluator deciding whether a board
//! is won, drawn or still in play, and a greedy move selector for the built-in
//! opponent (win if possible, else block, else a random empty cell).

pub mod board;
pub mod evaluator;
pub mod selector;
pub mod session;
