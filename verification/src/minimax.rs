//! Full-width negamax, the value that the search is measured against, and
//! the proof that alpha-beta pruning finds it.

use crate::evaluate::{clamp, evaluation_of, MATE_SCORE};
use crate::position::{legal_moves_of, successor_of, Move};
use crate::search::{
    bound_entry, first_index_from, moved_first, negated, searched, searched_moves, INITIAL_BOUND,
};
use crate::transposition_table::{lemma_inserted_wf, NodeType, ProbeResult, TableState};
use cozy_chess::Board;
use vstd::prelude::*;

verus! {

/// The greater of two numbers.
pub open spec fn greater(a: int, b: int) -> int {
    if a >= b {
        a
    } else {
        b
    }
}

/// The lesser of two numbers.
pub open spec fn lesser(a: int, b: int) -> int {
    if a <= b {
        a
    } else {
        b
    }
}

/// The value of a position for the side to move, by searching every line
/// to the depth limit: the static evaluation at the limit and where there
/// is no legal move, else the value of the best move.
pub open spec fn negamax_of(board: Board, depth: u32, max_depth: u32) -> int
    decreases max_depth - depth, 2nat, 0nat,
{
    let moves = legal_moves_of(board);
    if depth >= max_depth || moves.len() == 0 {
        evaluation_of(board)
    } else {
        best_from(board, depth, max_depth, moves, 1, move_value(board, depth, max_depth, moves[0]))
    }
}

/// The value of a move for the side that makes it: the negated value of
/// the position it leads to.
pub open spec fn move_value(board: Board, depth: u32, max_depth: u32, mv: Move) -> int
    decreases max_depth - depth, 0nat, 0nat,
{
    if depth >= max_depth {
        0
    } else {
        -negamax_of(successor_of(board, mv), (depth + 1) as u32, max_depth)
    }
}

/// The greatest of `floor` and the values of the moves from index `from`
/// on.
pub open spec fn best_from(
    board: Board,
    depth: u32,
    max_depth: u32,
    moves: Seq<Move>,
    from: int,
    floor: int,
) -> int
    decreases max_depth - depth, 1nat, moves.len() - from,
{
    if from < 0 || from >= moves.len() {
        floor
    } else {
        best_from(
            board,
            depth,
            max_depth,
            moves,
            from + 1,
            greater(floor, move_value(board, depth, max_depth, moves[from])),
        )
    }
}

/// The table answers no lookup of this search with a result: every
/// position that the search reaches is searched.
pub open spec fn unanswered(
    alpha: i32,
    beta: i32,
    depth: u32,
    max_depth: u32,
    board: Board,
    table: TableState,
) -> bool
    decreases max_depth - depth, 1nat, 0nat,
{
    let moves = legal_moves_of(board);
    if depth >= max_depth || moves.len() == 0 {
        true
    } else {
        match table.probe(board, depth, alpha, beta) {
            ProbeResult::SearchResult(_, _) => false,
            ProbeResult::OrderingHint(mv) => unanswered_moves(
                alpha,
                beta,
                depth,
                max_depth,
                board,
                moved_first(moves, mv),
                0,
                table,
            ),
            ProbeResult::Miss => unanswered_moves(
                alpha,
                beta,
                depth,
                max_depth,
                board,
                moves,
                0,
                table,
            ),
        }
    }
}

/// The table answers no lookup with a result while the moves from index
/// `from` on are searched.
pub open spec fn unanswered_moves(
    alpha: i32,
    beta: i32,
    depth: u32,
    max_depth: u32,
    board: Board,
    moves: Seq<Move>,
    from: int,
    table: TableState,
) -> bool
    decreases max_depth - depth, 0nat, moves.len() - from,
{
    if from < 0 || from >= moves.len() || depth >= max_depth {
        true
    } else {
        let mv = moves[from];
        let child = successor_of(board, mv);
        let reply = searched(
            negated(beta),
            negated(alpha),
            (depth + 1) as u32,
            max_depth,
            child,
            table,
        );
        let score = negated(reply.score);
        &&& unanswered(negated(beta), negated(alpha), (depth + 1) as u32, max_depth, child, table)
        &&& if score >= beta {
            true
        } else if score > alpha {
            unanswered_moves(
                score,
                beta,
                depth,
                max_depth,
                board,
                moves,
                from + 1,
                reply.table.inserted(board, bound_entry(mv, max_depth, score, NodeType::All)),
            )
        } else {
            unanswered_moves(alpha, beta, depth, max_depth, board, moves, from + 1, reply.table)
        }
    }
}

/// A search from a well-formed table with a window that can be negated
/// returns a score that can be negated and leaves a well-formed table.
pub proof fn lemma_searched_wf(
    alpha: i32,
    beta: i32,
    depth: u32,
    max_depth: u32,
    board: Board,
    table: TableState,
)
    requires
        alpha > i32::MIN,
        beta > i32::MIN,
        table.wf(),
    ensures
        searched(alpha, beta, depth, max_depth, board, table).score > i32::MIN,
        searched(alpha, beta, depth, max_depth, board, table).table.wf(),
    decreases max_depth - depth, 1nat, 0nat,
{
    let moves = legal_moves_of(board);
    if depth >= max_depth || moves.len() == 0 {
    } else {
        match table.probe(board, depth, alpha, beta) {
            ProbeResult::SearchResult(_, _) => {},
            ProbeResult::OrderingHint(mv) => {
                lemma_searched_moves_wf(
                    alpha,
                    beta,
                    depth,
                    max_depth,
                    board,
                    moved_first(moves, mv),
                    0,
                    table,
                );
            },
            ProbeResult::Miss => {
                lemma_searched_moves_wf(alpha, beta, depth, max_depth, board, moves, 0, table);
            },
        }
    }
}

/// The same for the moves from index `from` on.
pub proof fn lemma_searched_moves_wf(
    alpha: i32,
    beta: i32,
    depth: u32,
    max_depth: u32,
    board: Board,
    moves: Seq<Move>,
    from: int,
    table: TableState,
)
    requires
        alpha > i32::MIN,
        beta > i32::MIN,
        table.wf(),
    ensures
        searched_moves(alpha, beta, depth, max_depth, board, moves, from, table).score > i32::MIN,
        searched_moves(alpha, beta, depth, max_depth, board, moves, from, table).table.wf(),
    decreases max_depth - depth, 0nat, moves.len() - from,
{
    if from < 0 || from >= moves.len() || depth >= max_depth {
    } else {
        let mv = moves[from];
        let child = successor_of(board, mv);
        lemma_searched_wf(negated(beta), negated(alpha), (depth + 1) as u32, max_depth, child, table);
        let reply = searched(
            negated(beta),
            negated(alpha),
            (depth + 1) as u32,
            max_depth,
            child,
            table,
        );
        let score = negated(reply.score);
        if score >= beta {
            lemma_inserted_wf(reply.table, board, bound_entry(mv, max_depth, score, NodeType::Cut));
        } else if score > alpha {
            let entry = bound_entry(mv, max_depth, score, NodeType::All);
            lemma_inserted_wf(reply.table, board, entry);
            lemma_searched_moves_wf(
                score,
                beta,
                depth,
                max_depth,
                board,
                moves,
                from + 1,
                reply.table.inserted(board, entry),
            );
        } else {
            lemma_searched_moves_wf(
                alpha,
                beta,
                depth,
                max_depth,
                board,
                moves,
                from + 1,
                reply.table,
            );
        }
    }
}

/// What `best_from` returns is at least `floor` and at least the value of
/// each move it ranges over, and it is one of them.
pub proof fn lemma_best_from_is_greatest(
    board: Board,
    depth: u32,
    max_depth: u32,
    moves: Seq<Move>,
    from: int,
    floor: int,
)
    requires
        0 <= from,
    ensures
        best_from(board, depth, max_depth, moves, from, floor) >= floor,
        forall|j: int|
            from <= j < moves.len() ==> best_from(board, depth, max_depth, moves, from, floor)
                >= move_value(board, depth, max_depth, #[trigger] moves[j]),
        best_from(board, depth, max_depth, moves, from, floor) == floor || exists|j: int|
            from <= j < moves.len() && best_from(board, depth, max_depth, moves, from, floor)
                == move_value(board, depth, max_depth, #[trigger] moves[j]),
    decreases moves.len() - from,
{
    if from < moves.len() {
        let here = move_value(board, depth, max_depth, moves[from]);
        let raised = greater(floor, here);
        lemma_best_from_is_greatest(board, depth, max_depth, moves, from + 1, raised);
        let best = best_from(board, depth, max_depth, moves, from, floor);
        assert(best == best_from(board, depth, max_depth, moves, from + 1, raised));
        if best != floor && best != raised {
            // The move that gives `best` comes after `from`.
            let j = choose|j: int|
                from + 1 <= j < moves.len() && best == move_value(
                    board,
                    depth,
                    max_depth,
                    #[trigger] moves[j],
                );
            assert(from <= j < moves.len());
        } else if best != floor {
            assert(best == move_value(board, depth, max_depth, moves[from]));
        }
    }
}

/// Raising the floor before or after makes no difference.
pub proof fn lemma_best_from_floor(
    board: Board,
    depth: u32,
    max_depth: u32,
    moves: Seq<Move>,
    from: int,
    low: int,
    floor: int,
)
    requires
        0 <= from,
    ensures
        best_from(board, depth, max_depth, moves, from, greater(low, floor)) == greater(
            low,
            best_from(board, depth, max_depth, moves, from, floor),
        ),
    decreases moves.len() - from,
{
    if from < moves.len() {
        let here = move_value(board, depth, max_depth, moves[from]);
        assert(greater(greater(low, floor), here) == greater(low, greater(floor, here)));
        lemma_best_from_floor(board, depth, max_depth, moves, from + 1, low, greater(floor, here));
    }
}

/// The greatest value does not depend on which move comes first.
pub proof fn lemma_best_from_exchange(
    board: Board,
    depth: u32,
    max_depth: u32,
    moves: Seq<Move>,
    at: int,
    floor: int,
)
    requires
        0 <= at < moves.len(),
    ensures
        best_from(
            board,
            depth,
            max_depth,
            moves.update(0, moves[at]).update(at, moves[0]),
            0,
            floor,
        ) == best_from(board, depth, max_depth, moves, 0, floor),
{
    let exchanged = moves.update(0, moves[at]).update(at, moves[0]);
    let a = best_from(board, depth, max_depth, moves, 0, floor);
    let b = best_from(board, depth, max_depth, exchanged, 0, floor);
    lemma_best_from_is_greatest(board, depth, max_depth, moves, 0, floor);
    lemma_best_from_is_greatest(board, depth, max_depth, exchanged, 0, floor);
    assert(forall|j: int|
        0 <= j < moves.len() ==> #[trigger] exchanged[j] == moves[if j == 0 {
            at
        } else if j == at {
            0
        } else {
            j
        }]);
    assert(forall|j: int|
        0 <= j < moves.len() ==> #[trigger] moves[j] == exchanged[if j == 0 {
            at
        } else if j == at {
            0
        } else {
            j
        }]);
    if b != floor {
        let j = choose|j: int|
            0 <= j < exchanged.len() && b == move_value(
                board,
                depth,
                max_depth,
                #[trigger] exchanged[j],
            );
        let k = if j == 0 {
            at
        } else if j == at {
            0
        } else {
            j
        };
        assert(exchanged[j] == moves[k]);
        assert(a >= move_value(board, depth, max_depth, moves[k]));
    }
    if a != floor {
        let j = choose|j: int|
            0 <= j < moves.len() && a == move_value(board, depth, max_depth, #[trigger] moves[j]);
        let k = if j == 0 {
            at
        } else if j == at {
            0
        } else {
            j
        };
        assert(moves[j] == exchanged[k]);
        assert(b >= move_value(board, depth, max_depth, exchanged[k]));
    }
}

/// The index of a first occurrence is never negative.
pub proof fn lemma_first_index_in_range(moves: Seq<Move>, mv: Move, from: int)
    requires
        0 <= from,
    ensures
        0 <= first_index_from(moves, mv, from),
    decreases moves.len() - from,
{
    if from < moves.len() && moves[from] != mv {
        lemma_first_index_in_range(moves, mv, from + 1);
    }
}

/// Trying a suggested move first does not change the greatest value.
pub proof fn lemma_best_from_moved_first(
    board: Board,
    depth: u32,
    max_depth: u32,
    moves: Seq<Move>,
    mv: Move,
    floor: int,
)
    ensures
        best_from(board, depth, max_depth, moved_first(moves, mv), 0, floor) == best_from(
            board,
            depth,
            max_depth,
            moves,
            0,
            floor,
        ),
{
    lemma_first_index_in_range(moves, mv, 0);
    let at = first_index_from(moves, mv, 0);
    if at < moves.len() {
        lemma_best_from_exchange(board, depth, max_depth, moves, at, floor);
    }
}

/// Pruning is sound for the moves of a position: with the lower bound
/// raised to `alpha` by the moves before `from`, the search of the others
/// returns the greatest of `alpha` and their values, or `beta` if that is
/// less.
pub proof fn lemma_moves_are_minimax(
    alpha: i32,
    beta: i32,
    depth: u32,
    max_depth: u32,
    board: Board,
    moves: Seq<Move>,
    from: int,
    table: TableState,
)
    requires
        i32::MIN < alpha < beta,
        0 <= from,
        depth < max_depth,
        table.wf(),
        unanswered_moves(alpha, beta, depth, max_depth, board, moves, from, table),
    ensures
        searched_moves(alpha, beta, depth, max_depth, board, moves, from, table).score == lesser(
            beta as int,
            best_from(board, depth, max_depth, moves, from, alpha as int),
        ),
    decreases max_depth - depth, 0nat, moves.len() - from,
{
    if from >= moves.len() {
    } else {
        let mv = moves[from];
        let child = successor_of(board, mv);
        let below = (depth + 1) as u32;
        let reply = searched(negated(beta), negated(alpha), below, max_depth, child, table);
        let score = negated(reply.score);
        let value = move_value(board, depth, max_depth, mv);
        lemma_searched_wf(negated(beta), negated(alpha), below, max_depth, child, table);
        lemma_search_is_minimax(negated(beta), negated(alpha), below, max_depth, child, table);
        assert(value == -negamax_of(child, below, max_depth));
        let rest = best_from(
            board,
            depth,
            max_depth,
            moves,
            from + 1,
            greater(alpha as int, value),
        );
        assert(best_from(board, depth, max_depth, moves, from, alpha as int) == rest);
        lemma_best_from_is_greatest(
            board,
            depth,
            max_depth,
            moves,
            from + 1,
            greater(alpha as int, value),
        );
        if score >= beta {
            assert(value >= beta);
        } else if score > alpha {
            assert(value == score);
            let entry = bound_entry(mv, max_depth, score, NodeType::All);
            lemma_inserted_wf(reply.table, board, entry);
            lemma_moves_are_minimax(
                score,
                beta,
                depth,
                max_depth,
                board,
                moves,
                from + 1,
                reply.table.inserted(board, entry),
            );
        } else {
            assert(value <= alpha);
            lemma_moves_are_minimax(
                alpha,
                beta,
                depth,
                max_depth,
                board,
                moves,
                from + 1,
                reply.table,
            );
        }
    }
}

/// Pruning is sound: where the table answers no lookup with a result, the
/// score of a search and the full-width value of the position are the same
/// once both are moved into the window. So a search whose window holds the
/// full-width value returns that value.
pub proof fn lemma_search_is_minimax(
    alpha: i32,
    beta: i32,
    depth: u32,
    max_depth: u32,
    board: Board,
    table: TableState,
)
    requires
        i32::MIN < alpha < beta,
        table.wf(),
        unanswered(alpha, beta, depth, max_depth, board, table),
    ensures
        clamp(
            searched(alpha, beta, depth, max_depth, board, table).score as int,
            alpha as int,
            beta as int,
        ) == clamp(negamax_of(board, depth, max_depth), alpha as int, beta as int),
        alpha < negamax_of(board, depth, max_depth) < beta ==> searched(
            alpha,
            beta,
            depth,
            max_depth,
            board,
            table,
        ).score == negamax_of(board, depth, max_depth),
    decreases max_depth - depth, 1nat, 0nat,
{
    let moves = legal_moves_of(board);
    if depth >= max_depth || moves.len() == 0 {
    } else {
        let order = match table.probe(board, depth, alpha, beta) {
            ProbeResult::OrderingHint(mv) => moved_first(moves, mv),
            _ => moves,
        };
        lemma_moves_are_minimax(alpha, beta, depth, max_depth, board, order, 0, table);
        match table.probe(board, depth, alpha, beta) {
            ProbeResult::OrderingHint(mv) => {
                lemma_best_from_moved_first(board, depth, max_depth, moves, mv, alpha as int);
            },
            _ => {},
        }
        let first = move_value(board, depth, max_depth, moves[0]);
        lemma_best_from_floor(board, depth, max_depth, moves, 1, alpha as int, first);
        assert(best_from(board, depth, max_depth, moves, 0, alpha as int) == best_from(
            board,
            depth,
            max_depth,
            moves,
            1,
            greater(alpha as int, first),
        ));
    }
}

/// The full-width value of a position lies between the two decisive
/// scores.
pub proof fn lemma_negamax_in_range(board: Board, depth: u32, max_depth: u32)
    ensures
        -MATE_SCORE <= negamax_of(board, depth, max_depth) <= MATE_SCORE,
    decreases max_depth - depth,
{
    let moves = legal_moves_of(board);
    if depth >= max_depth || moves.len() == 0 {
    } else {
        assert forall|j: int| 0 <= j < moves.len() implies -MATE_SCORE <= move_value(
            board,
            depth,
            max_depth,
            #[trigger] moves[j],
        ) <= MATE_SCORE by {
            lemma_negamax_in_range(successor_of(board, moves[j]), (depth + 1) as u32, max_depth);
        }
        let first = move_value(board, depth, max_depth, moves[0]);
        lemma_best_from_is_greatest(board, depth, max_depth, moves, 1, first);
    }
}

/// Pruning is sound: a search with the window that iterative deepening
/// starts from returns the full-width value of the position, where the
/// table answers no lookup with a result.
pub proof fn lemma_wide_search_is_minimax(
    depth: u32,
    max_depth: u32,
    board: Board,
    table: TableState,
)
    requires
        table.wf(),
        unanswered(
            (-INITIAL_BOUND) as i32,
            INITIAL_BOUND,
            depth,
            max_depth,
            board,
            table,
        ),
    ensures
        searched((-INITIAL_BOUND) as i32, INITIAL_BOUND, depth, max_depth, board, table).score
            == negamax_of(board, depth, max_depth),
{
    lemma_negamax_in_range(board, depth, max_depth);
    lemma_search_is_minimax(
        (-INITIAL_BOUND) as i32,
        INITIAL_BOUND,
        depth,
        max_depth,
        board,
        table,
    );
}

/// While the replies to the moves of a position are scored at the depth
/// limit, the table answers no lookup: none is made.
pub proof fn lemma_last_ply_moves_are_unanswered(
    alpha: i32,
    beta: i32,
    depth: u32,
    max_depth: u32,
    board: Board,
    moves: Seq<Move>,
    from: int,
    table: TableState,
)
    requires
        0 <= from,
        depth + 1 >= max_depth,
    ensures
        unanswered_moves(alpha, beta, depth, max_depth, board, moves, from, table),
    decreases moves.len() - from,
{
    if from >= moves.len() || depth >= max_depth {
    } else {
        let mv = moves[from];
        let reply = searched(
            negated(beta),
            negated(alpha),
            (depth + 1) as u32,
            max_depth,
            successor_of(board, mv),
            table,
        );
        let score = negated(reply.score);
        assert(unanswered(
            negated(beta),
            negated(alpha),
            (depth + 1) as u32,
            max_depth,
            successor_of(board, mv),
            table,
        ));
        if score >= beta {
        } else if score > alpha {
            lemma_last_ply_moves_are_unanswered(
                score,
                beta,
                depth,
                max_depth,
                board,
                moves,
                from + 1,
                reply.table.inserted(board, bound_entry(mv, max_depth, score, NodeType::All)),
            );
        } else {
            lemma_last_ply_moves_are_unanswered(
                alpha,
                beta,
                depth,
                max_depth,
                board,
                moves,
                from + 1,
                reply.table,
            );
        }
    }
}

/// Pruning is sound one ply above the depth limit: the search of a
/// position that the table does not hold, whose replies are scored at the
/// limit, returns the full-width value of the position moved into the
/// window.
pub proof fn lemma_last_ply_is_minimax(
    alpha: i32,
    beta: i32,
    depth: u32,
    max_depth: u32,
    board: Board,
    table: TableState,
)
    requires
        i32::MIN < alpha < beta,
        depth + 1 >= max_depth,
        table.wf(),
        !table.entries.contains_key(board),
    ensures
        unanswered(alpha, beta, depth, max_depth, board, table),
        clamp(
            searched(alpha, beta, depth, max_depth, board, table).score as int,
            alpha as int,
            beta as int,
        ) == clamp(negamax_of(board, depth, max_depth), alpha as int, beta as int),
{
    lemma_last_ply_moves_are_unanswered(
        alpha,
        beta,
        depth,
        max_depth,
        board,
        legal_moves_of(board),
        0,
        table,
    );
    lemma_search_is_minimax(alpha, beta, depth, max_depth, board, table);
}

} // verus!
