//! The engine as its commands see it: one position, one transposition
//! table, and the rule for what each command does to them.
//!
//! An engine is idle or searching. It starts no thread and reads no
//! channel itself: its owner feeds it the commands that arrive while it is
//! idle, through [`Engine::handle`], and runs [`Engine::go`] where that asks
//! for a search. The search borrows the engine until it returns, so while
//! it runs the owner can ask only [`during_search`] what a command means:
//! to set the cancellation signal, to answer at once, or nothing.

use crate::cancel::CancelToken;
use crate::position::{legal_moves_of, Move};
use crate::search::{adopted_after, deepened_to, iterative_deepening, negated, MAX_DEPTH};
use crate::transposition_table::{TableState, TranspositionTable, MAX_SIZE};
use cozy_chess::Board;
use vstd::prelude::*;

verus! {

/// A command to the engine.
#[derive(Debug)]
pub enum EngineMessage {
    /// Replaces the position. The moves that led to it come along for the
    /// record; the engine does not read them.
    Position(Board, Vec<Move>),
    /// Starts a search from the current position.
    Go,
    /// Asks the running search to stop.
    Stop,
    /// Asks for a sign of life.
    ReadyCheck,
    /// Forgets everything searched so far.
    NewGame,
    /// Ends the engine.
    Quit,
}

/// An answer of the engine.
#[derive(Debug, Clone, Copy, PartialEq, Eq)]
pub enum EngineReply {
    /// The answer to `ReadyCheck`.
    ReadyMessage,
    /// The answer to `Go`: the move chosen, and its score for the side that
    /// makes it.
    BestMove(Move, i32),
}

/// What the owner of the engine does after a command that arrived while no
/// search was running.
#[derive(Debug, Clone, Copy, PartialEq, Eq)]
pub enum Step {
    /// Nothing: wait for the next command.
    Continue,
    /// Send the reply, then wait for the next command.
    Reply(EngineReply),
    /// Run [`Engine::go`] with a fresh cancellation signal and send what
    /// it returns.
    Search,
    /// Stop reading commands.
    Quit,
}

/// What the owner of the engine does with a command that arrives while a
/// search is running.
#[derive(Debug, Clone, Copy, PartialEq, Eq)]
pub enum SearchStep {
    /// Set the cancellation signal of the search.
    Cancel,
    /// Send the reply; the search goes on.
    Reply(EngineReply),
    /// Drop the command; the search goes on.
    Ignore,
}

/// What an engine holds between two commands.
pub struct EngineState {
    pub board: Board,
    pub table: TableState,
    /// The depth that a search deepens to.
    pub depth_ceiling: u32,
}

/// The position and the table that outlive a search, and the depth that
/// each search deepens to.
pub struct Engine {
    board: Board,
    table: TranspositionTable,
    depth_ceiling: u32,
}

impl View for Engine {
    type V = EngineState;

    closed spec fn view(&self) -> EngineState {
        EngineState { board: self.board, table: self.table@, depth_ceiling: self.depth_ceiling }
    }
}

/// The reply to `Go` once the depths 1 to `depths` have been completed: the
/// move that stands, and its score for the side that makes it, which is
/// the negation of what the search keeps, the score of the opponent's best
/// answer.
pub open spec fn reply_after(board: Board, depths: nat, table: TableState) -> EngineReply {
    EngineReply::BestMove(
        adopted_after(board, depths, table).0,
        negated(adopted_after(board, depths, table).1),
    )
}

/// `answer` is the reply after some number of completed depths, from none
/// to `ceiling`.
pub open spec fn replies_within(board: Board, table: TableState, ceiling: u32, answer: EngineReply)
    -> bool {
    exists|depths: nat| depths <= ceiling && answer == #[trigger] reply_after(board, depths, table)
}

/// The meaning of a command that arrives while a search is running: `Stop`
/// cancels the search, `ReadyCheck` is answered at once, and every other
/// command is dropped.
pub fn during_search(message: &EngineMessage) -> (step: SearchStep)
    ensures
        *message is Stop <==> step is Cancel,
        *message is ReadyCheck <==> step == SearchStep::Reply(EngineReply::ReadyMessage),
        !(*message is Stop) && !(*message is ReadyCheck) <==> step is Ignore,
{
    match message {
        EngineMessage::Stop => SearchStep::Cancel,
        EngineMessage::ReadyCheck => SearchStep::Reply(EngineReply::ReadyMessage),
        _ => SearchStep::Ignore,
    }
}

impl Engine {
    /// The table is well formed.
    pub closed spec fn wf(&self) -> bool {
        self.table.wf()
    }

    /// An engine at `board` with an empty table of the default size, which
    /// searches to the default depth.
    pub fn new(board: Board) -> (engine: Engine)
        ensures
            engine.wf(),
            engine@ == (EngineState {
                board,
                table: TableState::empty(MAX_SIZE),
                depth_ceiling: MAX_DEPTH,
            }),
    {
        Engine { board, table: TranspositionTable::new(), depth_ceiling: MAX_DEPTH }
    }

    /// An engine at `board` with an empty table that starts evicting at
    /// `table_ceiling` entries, which searches to `depth_ceiling`.
    pub fn with_limits(board: Board, table_ceiling: usize, depth_ceiling: u32) -> (engine: Engine)
        ensures
            engine.wf(),
            engine@ == (EngineState {
                board,
                table: TableState::empty(table_ceiling),
                depth_ceiling,
            }),
    {
        Engine { board, table: TranspositionTable::with_ceiling(table_ceiling), depth_ceiling }
    }

    /// The current position.
    pub fn board(&self) -> (board: &Board)
        ensures
            *board == self@.board,
    {
        &self.board
    }

    /// The depth that a search deepens to.
    pub fn depth_ceiling(&self) -> (depth: u32)
        ensures
            depth == self@.depth_ceiling,
    {
        self.depth_ceiling
    }

    /// The table.
    pub fn table(&self) -> (table: &TranspositionTable)
        ensures
            table@ == self@.table,
            table.wf() == self.wf(),
    {
        &self.table
    }

    /// Takes a command that arrived while no search was running.
    ///
    /// `Position` replaces the position. `Go` ages the table and asks for a
    /// search. `NewGame` replaces the table by an empty one with the same
    /// ceiling. `ReadyCheck` is answered. `Quit` ends the loop. `Stop` has
    /// nothing to stop and is dropped.
    pub fn handle(&mut self, message: EngineMessage) -> (step: Step)
        requires
            old(self).wf(),
        ensures
            final(self).wf(),
            match message {
                EngineMessage::Position(board, _) => step is Continue && final(self)@ == (
                EngineState {
                    board,
                    table: old(self)@.table,
                    depth_ceiling: old(self)@.depth_ceiling,
                }),
                EngineMessage::Go => step is Search && final(self)@ == (EngineState {
                    board: old(self)@.board,
                    table: old(self)@.table.aged(),
                    depth_ceiling: old(self)@.depth_ceiling,
                }),
                EngineMessage::Stop => step is Continue && final(self)@ == old(self)@,
                EngineMessage::ReadyCheck => step == Step::Reply(EngineReply::ReadyMessage)
                    && final(self)@ == old(self)@,
                EngineMessage::NewGame => step is Continue && final(self)@ == (EngineState {
                    board: old(self)@.board,
                    table: TableState::empty(old(self)@.table.ceiling),
                    depth_ceiling: old(self)@.depth_ceiling,
                }),
                EngineMessage::Quit => step is Quit && final(self)@ == old(self)@,
            },
    {
        match message {
            EngineMessage::Position(board, _) => {
                self.board = board;
                Step::Continue
            },
            EngineMessage::Go => {
                self.table.age();
                Step::Search
            },
            EngineMessage::Stop => Step::Continue,
            EngineMessage::ReadyCheck => Step::Reply(EngineReply::ReadyMessage),
            EngineMessage::NewGame => {
                self.table = TranspositionTable::with_ceiling(self.table.ceiling());
                Step::Continue
            },
            EngineMessage::Quit => Step::Quit,
        }
    }

    /// Searches the current position and returns the reply to `Go`: the
    /// move of the last depth that was completed before `stop` was seen
    /// set, with its score for the side to move. With a token that is not
    /// armed that is the last depth of all. There is no reply for a
    /// position without legal moves.
    pub fn go(&mut self, stop: &CancelToken) -> (reply: Option<EngineReply>)
        requires
            old(self).wf(),
        ensures
            final(self).wf(),
            final(self)@.board == old(self)@.board,
            final(self)@.depth_ceiling == old(self)@.depth_ceiling,
            reply is None <==> legal_moves_of(old(self)@.board).len() == 0,
            reply is None ==> final(self)@ == old(self)@,
            reply matches Some(answer) ==> replies_within(
                old(self)@.board,
                old(self)@.table,
                old(self)@.depth_ceiling,
                answer,
            ),
            reply matches Some(answer) ==> !stop.armed() ==> answer == reply_after(
                old(self)@.board,
                old(self)@.depth_ceiling as nat,
                old(self)@.table,
            ),
            reply is Some ==> !stop.armed() ==> final(self)@.table == deepened_to(
                old(self)@.board,
                old(self)@.depth_ceiling as nat,
                old(self)@.table,
            ).table,
    {
        match iterative_deepening(&self.board, &mut self.table, stop, self.depth_ceiling) {
            Some(report) => {
                assert(EngineReply::BestMove(report.best_move, negated(report.score))
                    == reply_after(old(self)@.board, report.depths as nat, old(self)@.table));
                Some(EngineReply::BestMove(report.best_move, -report.score))
            },
            None => None,
        }
    }
}

} // verus!
