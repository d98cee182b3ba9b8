//! Negamax search with alpha-beta pruning, and iterative deepening on top
//! of it.
//!
//! A search reads and fills the transposition table as it goes, so what it
//! returns depends on what the table held when it started. Each search is
//! therefore described by a function of the table's content that gives the
//! score together with the content left behind.
//!
//! The moves of a position are searched one after the other, at the root
//! as everywhere else: the table is taken by `&mut`, so that each contract
//! can say exactly what it holds afterwards.

use crate::cancel::CancelToken;
use crate::evaluate::{evaluate, evaluation_of};
use crate::position::{legal_moves, legal_moves_of, play, successor_of, Move};
use crate::transposition_table::{
    NodeType, ProbeResult, TableEntry, TableState, TranspositionTable,
};
use cozy_chess::Board;
use vstd::prelude::*;

verus! {

/// The index of the first occurrence of `mv` in `moves` at or after `from`,
/// or the length of `moves` if there is none.
pub open spec fn first_index_from(moves: Seq<Move>, mv: Move, from: int) -> int
    decreases moves.len() - from,
{
    if from < 0 || from >= moves.len() {
        moves.len() as int
    } else if moves[from] == mv {
        from
    } else {
        first_index_from(moves, mv, from + 1)
    }
}

/// `moves` with the first occurrence of `mv` and the first move exchanged;
/// `moves` itself if `mv` does not occur.
pub open spec fn moved_first(moves: Seq<Move>, mv: Move) -> Seq<Move> {
    let at = first_index_from(moves, mv, 0);
    if at < moves.len() {
        moves.update(0, moves[at]).update(at, moves[0])
    } else {
        moves
    }
}

/// Every move of a list is in the list.
pub proof fn lemma_holds_its_moves(moves: Seq<Move>)
    ensures
        forall|i: int| 0 <= i < moves.len() ==> moves.contains(#[trigger] moves[i]),
{
}

/// Puts `mv` at the head of `moves` by exchanging it with the first move.
/// A move that is not in the list leaves it as it is.
pub fn put_move_first(mv: Move, moves: &mut Vec<Move>)
    ensures
        final(moves)@ == moved_first(old(moves)@, mv),
        final(moves)@.len() == old(moves)@.len(),
        forall|i: int|
            0 <= i < final(moves)@.len() ==> old(moves)@.contains(#[trigger] final(moves)@[i]),
{
    let mut at: usize = 0;
    while at < moves.len()
        invariant
            at <= moves.len(),
            moves@ == old(moves)@,
            first_index_from(moves@, mv, 0) == first_index_from(moves@, mv, at as int),
        decreases moves.len() - at,
    {
        if moves[at] == mv {
            let head = moves[0];
            moves.set(0, mv);
            moves.set(at, head);
            return ;
        }
        at += 1;
    }
}

/// The negation of a score.
pub open spec fn negated(score: i32) -> i32 {
    (-score) as i32
}

/// The entry that a search to `max_depth` stores for a move that bounds the
/// score of a position.
pub open spec fn bound_entry(mv: Move, max_depth: u32, score: i32, node: NodeType) -> TableEntry {
    TableEntry { best_response: mv, depth: max_depth, score, node, age: 0 }
}

/// A score, and the table that the search for it leaves behind.
pub struct Outcome {
    pub score: i32,
    pub table: TableState,
}

/// What a search of `board` returns and leaves in the table, if it is not
/// cancelled.
///
/// At the depth limit, and where there is no legal move, the score is the
/// static evaluation. Otherwise the table is asked first: a result it
/// vouches for is returned as it is, and a move it suggests is tried first.
pub open spec fn searched(
    alpha: i32,
    beta: i32,
    depth: u32,
    max_depth: u32,
    board: Board,
    table: TableState,
) -> Outcome
    decreases max_depth - depth, 1nat, 0nat,
{
    let moves = legal_moves_of(board);
    if depth >= max_depth || moves.len() == 0 {
        Outcome { score: evaluation_of(board) as i32, table }
    } else {
        match table.probe(board, depth, alpha, beta) {
            ProbeResult::SearchResult(_, score) => Outcome { score, table },
            ProbeResult::OrderingHint(mv) => searched_moves(
                alpha,
                beta,
                depth,
                max_depth,
                board,
                moved_first(moves, mv),
                0,
                table,
            ),
            ProbeResult::Miss => searched_moves(
                alpha,
                beta,
                depth,
                max_depth,
                board,
                moves,
                0,
                table,
            ),
        }
    }
}

/// What the search of `board` returns once the moves before `from` have
/// raised the lower bound to `alpha`.
///
/// Each move is searched with the window negated and exchanged, and its
/// score negated. A score that reaches `beta` ends the search with `beta`
/// and is stored as a lower bound; a score above `alpha` becomes the new
/// `alpha` and is stored; when the moves run out the score is `alpha`.
pub open spec fn searched_moves(
    alpha: i32,
    beta: i32,
    depth: u32,
    max_depth: u32,
    board: Board,
    moves: Seq<Move>,
    from: int,
    table: TableState,
) -> Outcome
    decreases max_depth - depth, 0nat, moves.len() - from,
{
    if from < 0 || from >= moves.len() || depth >= max_depth {
        Outcome { score: alpha, table }
    } else {
        let mv = moves[from];
        let reply = searched(
            negated(beta),
            negated(alpha),
            (depth + 1) as u32,
            max_depth,
            successor_of(board, mv),
            table,
        );
        let score = negated(reply.score);
        if score >= beta {
            Outcome {
                score: beta,
                table: reply.table.inserted(board, bound_entry(mv, max_depth, score, NodeType::Cut)),
            }
        } else if score > alpha {
            searched_moves(
                score,
                beta,
                depth,
                max_depth,
                board,
                moves,
                from + 1,
                reply.table.inserted(board, bound_entry(mv, max_depth, score, NodeType::All)),
            )
        } else {
            searched_moves(alpha, beta, depth, max_depth, board, moves, from + 1, reply.table)
        }
    }
}

/// Searches `board`, `depth` plies below the root of a search that looks
/// `max_depth` plies ahead, for a score inside the window from
/// `initial_alpha` to `beta`.
///
/// Returns `None` if it saw the cancellation signal, which it does not if
/// `stop` is not armed; the table then holds what was stored up to that
/// point. Otherwise the score and the table are exactly those of
/// [`searched`].
pub fn alpha_beta(
    initial_alpha: i32,
    beta: i32,
    depth: u32,
    max_depth: u32,
    board: &Board,
    table: &mut TranspositionTable,
    stop: &CancelToken,
) -> (r: Option<i32>)
    requires
        initial_alpha > i32::MIN,
        beta > i32::MIN,
        old(table).wf(),
    ensures
        final(table).wf(),
        !stop.armed() ==> r is Some,
        r matches Some(score) ==> score > i32::MIN,
        r matches Some(score) ==> score == searched(
            initial_alpha,
            beta,
            depth,
            max_depth,
            *board,
            old(table)@,
        ).score,
        r is Some ==> final(table)@ == searched(
            initial_alpha,
            beta,
            depth,
            max_depth,
            *board,
            old(table)@,
        ).table,
    decreases max_depth - depth,
{
    if stop.is_cancelled() {
        return None;
    }
    if depth >= max_depth {
        return Some(evaluate(board));
    }
    let mut move_list = legal_moves(board);
    if move_list.len() == 0 {
        return Some(evaluate(board));
    }
    proof {
        lemma_holds_its_moves(move_list@);
    }
    match table.probe(board, depth, initial_alpha, beta) {
        ProbeResult::Miss => (),
        ProbeResult::OrderingHint(mv) => put_move_first(mv, &mut move_list),
        ProbeResult::SearchResult(_, score) => {
            return Some(score);
        },
    }
    let ghost goal = searched(initial_alpha, beta, depth, max_depth, *board, old(table)@);
    let mut alpha = initial_alpha;
    let mut at: usize = 0;
    while at < move_list.len()
        invariant
            at <= move_list.len(),
            depth < max_depth,
            alpha > i32::MIN,
            beta > i32::MIN,
            table.wf(),
            goal == searched(initial_alpha, beta, depth, max_depth, *board, old(table)@),
            forall|i: int|
                0 <= i < move_list@.len() ==> legal_moves_of(*board).contains(
                    #[trigger] move_list@[i],
                ),
            goal == searched_moves(
                alpha,
                beta,
                depth,
                max_depth,
                *board,
                move_list@,
                at as int,
                table@,
            ),
        decreases move_list.len() - at,
    {
        let mv = move_list[at];
        let child = play(board, mv);
        let score = match alpha_beta(-beta, -alpha, depth + 1, max_depth, &child, table, stop) {
            Some(reply) => -reply,
            None => {
                return None;
            },
        };
        if score >= beta {
            let entry = TableEntry {
                best_response: mv,
                depth: max_depth,
                score,
                node: NodeType::Cut,
                age: 0,
            };
            table.insert(board, entry);
            return Some(beta);
        }
        if score > alpha {
            let entry = TableEntry {
                best_response: mv,
                depth: max_depth,
                score,
                node: NodeType::All,
                age: 0,
            };
            table.insert(board, entry);
            alpha = score;
        }
        at += 1;
    }
    Some(alpha)
}

/// The depth that [`search`] deepens to.
pub const MAX_DEPTH: u32 = 5;

/// The bound of the window that the first depth is searched with.
pub const INITIAL_BOUND: i32 = 1_000_000;

/// How far the window of the next depth reaches to either side of the score
/// of the last one, in centipawns.
pub const WINDOW: i32 = 100;

/// The scores of the replies to the first `upto` root moves, and the table
/// once they have been searched one after the other.
pub struct FanOut {
    pub scores: Seq<i32>,
    pub table: TableState,
}

/// The positions after the first `upto` moves of `order`, each searched to
/// `max_depth` with the same window, in the order of the list.
pub open spec fn fanned_out(
    alpha: i32,
    beta: i32,
    max_depth: u32,
    board: Board,
    order: Seq<Move>,
    upto: int,
    table: TableState,
) -> FanOut
    decreases upto,
{
    if upto <= 0 {
        FanOut { scores: Seq::empty(), table }
    } else {
        let before = fanned_out(alpha, beta, max_depth, board, order, upto - 1, table);
        let reply = searched(
            alpha,
            beta,
            0,
            max_depth,
            successor_of(board, order[upto - 1]),
            before.table,
        );
        FanOut { scores: before.scores.push(reply.score), table: reply.table }
    }
}

/// There is one score for each move searched.
pub proof fn lemma_fanned_out_len(
    alpha: i32,
    beta: i32,
    max_depth: u32,
    board: Board,
    order: Seq<Move>,
    upto: int,
    table: TableState,
)
    requires
        0 <= upto,
    ensures
        fanned_out(alpha, beta, max_depth, board, order, upto, table).scores.len() == upto,
    decreases upto,
{
    if upto > 0 {
        lemma_fanned_out_len(alpha, beta, max_depth, board, order, upto - 1, table);
    }
}

/// Searches the position after each move of `order` to `max_depth`, one
/// after the other, and returns the scores in the order of the moves.
///
/// Returns `None` as soon as one of the searches saw the cancellation
/// signal, which none does if `stop` is not armed.
pub fn fan_out(
    alpha: i32,
    beta: i32,
    max_depth: u32,
    board: &Board,
    order: &Vec<Move>,
    table: &mut TranspositionTable,
    stop: &CancelToken,
) -> (r: Option<Vec<i32>>)
    requires
        alpha > i32::MIN,
        beta > i32::MIN,
        old(table).wf(),
        forall|i: int|
            0 <= i < order@.len() ==> legal_moves_of(*board).contains(#[trigger] order@[i]),
    ensures
        final(table).wf(),
        !stop.armed() ==> r is Some,
        r matches Some(scores) ==> scores@ == fanned_out(
            alpha,
            beta,
            max_depth,
            *board,
            order@,
            order@.len() as int,
            old(table)@,
        ).scores,
        r matches Some(scores) ==> forall|i: int|
            0 <= i < scores@.len() ==> #[trigger] scores@[i] > i32::MIN,
        r is Some ==> final(table)@ == fanned_out(
            alpha,
            beta,
            max_depth,
            *board,
            order@,
            order@.len() as int,
            old(table)@,
        ).table,
{
    let mut scores: Vec<i32> = Vec::new();
    let mut at: usize = 0;
    while at < order.len()
        invariant
            at <= order.len(),
            alpha > i32::MIN,
            beta > i32::MIN,
            table.wf(),
            forall|i: int|
                0 <= i < order@.len() ==> legal_moves_of(*board).contains(#[trigger] order@[i]),
            forall|i: int| 0 <= i < scores@.len() ==> #[trigger] scores@[i] > i32::MIN,
            scores@ == fanned_out(
                alpha,
                beta,
                max_depth,
                *board,
                order@,
                at as int,
                old(table)@,
            ).scores,
            table@ == fanned_out(
                alpha,
                beta,
                max_depth,
                *board,
                order@,
                at as int,
                old(table)@,
            ).table,
        decreases order.len() - at,
    {
        let child = play(board, order[at]);
        match alpha_beta(alpha, beta, 0, max_depth, &child, table, stop) {
            Some(score) => scores.push(score),
            None => {
                return None;
            },
        }
        at += 1;
    }
    Some(scores)
}

/// The index of the lowest of the first `upto` scores; of equal scores the
/// one that comes first.
pub open spec fn lowest_index(scores: Seq<i32>, upto: int) -> int
    decreases upto,
{
    if upto <= 1 {
        0
    } else {
        let before = lowest_index(scores, upto - 1);
        if scores[upto - 1] < scores[before] {
            upto - 1
        } else {
            before
        }
    }
}

/// The index of the lowest score, which is the best for the side that
/// chooses among the moves: each score is what the opponent can get after
/// one of them. Of equal scores the first wins.
pub fn select_best(scores: &Vec<i32>) -> (best: usize)
    requires
        scores@.len() > 0,
    ensures
        best == lowest_index(scores@, scores@.len() as int),
        best < scores@.len(),
        forall|i: int| 0 <= i < scores@.len() ==> scores@[best as int] <= scores@[i],
        forall|i: int| 0 <= i < best ==> scores@[best as int] < scores@[i],
{
    let mut best: usize = 0;
    let mut at: usize = 1;
    while at < scores.len()
        invariant
            1 <= at <= scores.len(),
            best < at,
            best == lowest_index(scores@, at as int),
            forall|i: int| 0 <= i < at ==> scores@[best as int] <= scores@[i],
            forall|i: int| 0 <= i < best ==> scores@[best as int] < scores@[i],
        decreases scores.len() - at,
    {
        if scores[at] < scores[best] {
            best = at;
        }
        at += 1;
    }
    best
}

/// The lower end of the window around `score`.
pub open spec fn window_low(score: i32) -> i32 {
    if score - WINDOW <= i32::MIN {
        (i32::MIN + 1) as i32
    } else {
        (score - WINDOW) as i32
    }
}

/// The upper end of the window around `score`.
pub open spec fn window_high(score: i32) -> i32 {
    if score + WINDOW > i32::MAX {
        i32::MAX
    } else {
        (score + WINDOW) as i32
    }
}

/// The window for the next depth: `WINDOW` to either side of `score`, cut
/// off at the ends of the range of scores that can be negated.
pub fn narrow_window(score: i32) -> (window: (i32, i32))
    ensures
        window.0 == window_low(score),
        window.1 == window_high(score),
        window.0 > i32::MIN,
        window.1 > i32::MIN,
        window.0 <= score <= window.1 || score == i32::MIN,
{
    let low = if score <= i32::MIN + WINDOW {
        i32::MIN + 1
    } else {
        score - WINDOW
    };
    let high = if score > i32::MAX - WINDOW {
        i32::MAX
    } else {
        score + WINDOW
    };
    (low, high)
}

/// Where iterative deepening stands between two depths.
pub struct Deepening {
    /// The move adopted at the last depth that was completed.
    pub best_move: Move,
    /// Its score: what the opponent can get after it.
    pub score: i32,
    /// The window for the next depth.
    pub alpha: i32,
    pub beta: i32,
    /// The root moves in the order in which the next depth tries them.
    pub order: Seq<Move>,
    pub table: TableState,
}

/// Before the first depth: the first legal move stands in with score 0, and
/// the window is wide.
pub open spec fn deepening_start(board: Board, table: TableState) -> Deepening {
    Deepening {
        best_move: legal_moves_of(board)[0],
        score: 0,
        alpha: (-INITIAL_BOUND) as i32,
        beta: INITIAL_BOUND,
        order: legal_moves_of(board),
        table,
    }
}

/// One more depth completed.
///
/// If the table vouches for a result for the root at this depth, that
/// result is adopted and nothing else changes. Otherwise a move that the
/// table suggests goes first, every root move is searched, the move with
/// the lowest score is adopted and stored for the root as exact, and the
/// window closes in on its score. A score on the end of the window is
/// adopted like any other: the depth is not searched again with a wider
/// window.
pub open spec fn deepened(board: Board, depth: u32, s: Deepening) -> Deepening {
    match s.table.probe(board, depth, s.alpha, s.beta) {
        ProbeResult::SearchResult(mv, score) => Deepening {
            best_move: mv,
            score,
            alpha: s.alpha,
            beta: s.beta,
            order: s.order,
            table: s.table,
        },
        ProbeResult::OrderingHint(mv) => adopted(board, depth, s, moved_first(s.order, mv)),
        ProbeResult::Miss => adopted(board, depth, s, s.order),
    }
}

/// The depth completed by searching every root move, in the order `order`.
pub open spec fn adopted(board: Board, depth: u32, s: Deepening, order: Seq<Move>) -> Deepening {
    let fan = fanned_out(s.alpha, s.beta, depth, board, order, order.len() as int, s.table);
    let best = lowest_index(fan.scores, order.len() as int);
    let score = fan.scores[best];
    Deepening {
        best_move: order[best],
        score,
        alpha: window_low(score),
        beta: window_high(score),
        order,
        table: fan.table.inserted(board, bound_entry(order[best], depth, score, NodeType::PV)),
    }
}

/// The state after the depths 1 to `depths` have been completed, starting
/// from `table`.
pub open spec fn deepened_to(board: Board, depths: nat, table: TableState) -> Deepening
    decreases depths,
{
    if depths == 0 {
        deepening_start(board, table)
    } else {
        deepened(board, depths as u32, deepened_to(board, (depths - 1) as nat, table))
    }
}

/// The move and score that stand once the depths 1 to `depths` have been
/// completed.
pub open spec fn adopted_after(board: Board, depths: nat, table: TableState) -> (Move, i32) {
    (deepened_to(board, depths, table).best_move, deepened_to(board, depths, table).score)
}

/// `best` is what stands after some number of completed depths, from none
/// to `ceiling`.
pub open spec fn adopted_within(board: Board, table: TableState, ceiling: u32, best: (Move, i32))
    -> bool {
    exists|depths: nat| depths <= ceiling && best == #[trigger] adopted_after(board, depths, table)
}

/// What iterative deepening found, and how far it got.
#[derive(Debug, Clone, Copy, PartialEq, Eq)]
pub struct SearchReport {
    /// The move adopted at the last depth that was completed.
    pub best_move: Move,
    /// Its score: what the opponent can get after it.
    pub score: i32,
    /// The number of depths that were completed.
    pub depths: u32,
}

/// Iterative deepening from depth 1 to `ceiling`, with an account of how
/// far it got.
///
/// Returns `None` for a position without legal moves, and leaves the table
/// alone. Otherwise the cancellation signal decides how many depths are
/// completed, all of them if `stop` is not armed, and the report holds
/// exactly what stands after that many: after none, the first legal move
/// with score 0. Where every depth was completed the table is exactly the
/// one that they leave.
pub fn iterative_deepening(
    board: &Board,
    table: &mut TranspositionTable,
    stop: &CancelToken,
    ceiling: u32,
) -> (r: Option<SearchReport>)
    requires
        old(table).wf(),
    ensures
        final(table).wf(),
        r is None <==> legal_moves_of(*board).len() == 0,
        r is None ==> final(table)@ == old(table)@,
        r matches Some(report) ==> report.depths <= ceiling,
        r matches Some(report) ==> !stop.armed() ==> report.depths == ceiling,
        r matches Some(report) ==> report.score > i32::MIN,
        r matches Some(report) ==> (report.best_move, report.score) == adopted_after(
            *board,
            report.depths as nat,
            old(table)@,
        ),
        r matches Some(report) ==> report.depths == ceiling ==> final(table)@ == deepened_to(
            *board,
            ceiling as nat,
            old(table)@,
        ).table,
{
    let mut move_list = legal_moves(board);
    if move_list.len() == 0 {
        return None;
    }
    let mut best_move: (Move, i32) = (move_list[0], 0);
    let mut alpha: i32 = -INITIAL_BOUND;
    let mut beta: i32 = INITIAL_BOUND;
    let mut depth: u32 = 0;
    proof {
        lemma_holds_its_moves(move_list@);
    }
    while depth < ceiling
        invariant
            depth <= ceiling,
            table.wf(),
            alpha > i32::MIN,
            beta > i32::MIN,
            move_list@.len() > 0,
            legal_moves_of(*board).len() > 0,
            forall|i: int|
                0 <= i < move_list@.len() ==> legal_moves_of(*board).contains(
                    #[trigger] move_list@[i],
                ),
            best_move.1 > i32::MIN,
            deepened_to(*board, depth as nat, old(table)@) == (Deepening {
                best_move: best_move.0,
                score: best_move.1,
                alpha,
                beta,
                order: move_list@,
                table: table@,
            }),
        decreases ceiling - depth,
    {
        let ghost before = deepened_to(*board, depth as nat, old(table)@);
        if stop.is_cancelled() {
            return Some(SearchReport { best_move: best_move.0, score: best_move.1, depths: depth });
        }
        match table.probe(board, depth + 1, alpha, beta) {
            ProbeResult::Miss => (),
            ProbeResult::OrderingHint(mv) => put_move_first(mv, &mut move_list),
            ProbeResult::SearchResult(mv, score) => {
                best_move = (mv, score);
                depth += 1;
                continue ;
            },
        }
        let scores = match fan_out(alpha, beta, depth + 1, board, &move_list, table, stop) {
            Some(scores) => scores,
            None => {
                return Some(SearchReport { best_move: best_move.0, score: best_move.1, depths: depth });
            },
        };
        proof {
            lemma_fanned_out_len(
                alpha,
                beta,
                (depth + 1) as u32,
                *board,
                move_list@,
                move_list@.len() as int,
                before.table,
            );
        }
        depth += 1;
        let best = select_best(&scores);
        let score = scores[best];
        best_move = (move_list[best], score);
        let entry = TableEntry {
            best_response: move_list[best],
            depth,
            score,
            node: NodeType::PV,
            age: 0,
        };
        table.insert(board, entry);
        let window = narrow_window(score);
        alpha = window.0;
        beta = window.1;
    }
    Some(SearchReport { best_move: best_move.0, score: best_move.1, depths: depth })
}

/// Iterative deepening from depth 1 to [`MAX_DEPTH`].
///
/// Returns `None` for a position without legal moves, and leaves the table
/// alone. Otherwise returns the move and score adopted at the last depth
/// that was completed: depth `MAX_DEPTH`, or an earlier one if the
/// cancellation signal was seen, or the first legal move with score 0 if it
/// was seen before depth 1 was completed. With a token that is not armed
/// that is depth `MAX_DEPTH`.
pub fn search(board: &Board, table: &mut TranspositionTable, stop: &CancelToken) -> (r: Option<
    (Move, i32),
>)
    requires
        old(table).wf(),
    ensures
        final(table).wf(),
        r is None <==> legal_moves_of(*board).len() == 0,
        r is None ==> final(table)@ == old(table)@,
        r matches Some(best) ==> best.1 > i32::MIN,
        r matches Some(best) ==> adopted_within(*board, old(table)@, MAX_DEPTH, best),
        r matches Some(best) ==> !stop.armed() ==> best == adopted_after(
            *board,
            MAX_DEPTH as nat,
            old(table)@,
        ),
        r is Some ==> !stop.armed() ==> final(table)@ == deepened_to(
            *board,
            MAX_DEPTH as nat,
            old(table)@,
        ).table,
{
    match iterative_deepening(board, table, stop, MAX_DEPTH) {
        Some(report) => {
            assert((report.best_move, report.score) == adopted_after(
                *board,
                report.depths as nat,
                old(table)@,
            ));
            Some((report.best_move, report.score))
        },
        None => None,
    }
}

} // verus!
