//! A chess search engine core: a packed move codec, a lock-free transposition
//! table, negamax with alpha-beta pruning and quiescence, the per-worker
//! iterative-deepening root search, the vote that merges worker results, and
//! the decisions of the UCI controller.

pub mod board;
pub mod control;
pub mod eval;
pub mod move16;
pub mod root;
pub mod search;
pub mod ttable;
