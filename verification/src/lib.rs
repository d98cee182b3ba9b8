//! Search core of a chess engine: static evaluation, a transposition table
//! with depth-preferred replacement and generation-based eviction, negamax
//! search with alpha-beta pruning, iterative deepening with an aspiration
//! window, and the engine's command loop as a transition function.
//!
//! Board representation and move generation come from `cozy_chess`; the
//! table is stored in a `dashmap::DashMap`. What this crate assumes about
//! either is written down in the contracts of the functions that call them,
//! in `position` and `transposition_table`.

pub mod position;
pub mod transposition_table;
pub mod evaluate;
pub mod cancel;
pub mod search;
pub mod minimax;
pub mod engine;
pub mod notation;
