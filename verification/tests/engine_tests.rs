use cozy_chess::Board;
use soup_tadpole::cancel::CancelToken;
use soup_tadpole::engine::{during_search, Engine, EngineMessage, EngineReply, SearchStep, Step};
use soup_tadpole::position::Move;
use soup_tadpole::search::{iterative_deepening, MAX_DEPTH};
use soup_tadpole::transposition_table::{
    NodeType, ProbeResult, TableEntry, TranspositionTable, MAX_SIZE,
};

fn board(fen: &str) -> Board {
    fen.parse::<Board>().unwrap()
}

const AFTER_E4: &str = "rnbqkbnr/pppppppp/8/8/4P3/8/PPPP1PPP/RNBQKBNR b KQkq e3 0 1";

#[test]
fn a_new_engine_has_the_default_limits() {
    let engine = Engine::new(board(AFTER_E4));
    assert_eq!(*engine.board(), board(AFTER_E4));
    assert_eq!(engine.table().len(), 0);
    assert_eq!(engine.table().ceiling(), MAX_SIZE);
    assert_eq!(engine.depth_ceiling(), MAX_DEPTH);
    assert_eq!(engine.depth_ceiling(), 5);

    let engine = Engine::with_limits(Board::default(), 77, 3);
    assert_eq!(*engine.board(), Board::default());
    assert_eq!(engine.table().ceiling(), 77);
    assert_eq!(engine.depth_ceiling(), 3);
}

#[test]
fn position_replaces_the_board() {
    let mut engine = Engine::new(Board::default());
    let played = vec![Move { from: 12, to: 28, promotion: None }];
    let step = engine.handle(EngineMessage::Position(board(AFTER_E4), played));
    assert_eq!(step, Step::Continue);
    assert_eq!(*engine.board(), board(AFTER_E4));
    assert_eq!(engine.table().len(), 0);
}

#[test]
fn ready_check_is_answered() {
    let mut engine = Engine::new(Board::default());
    assert_eq!(engine.handle(EngineMessage::ReadyCheck), Step::Reply(EngineReply::ReadyMessage));
    assert_eq!(*engine.board(), Board::default());
}

#[test]
fn stop_without_a_search_is_dropped() {
    let mut engine = Engine::new(Board::default());
    assert_eq!(engine.handle(EngineMessage::Stop), Step::Continue);
    assert_eq!(engine.table().oldest_acceptable_age(), 0);
}

#[test]
fn quit_ends_the_loop() {
    let mut engine = Engine::new(Board::default());
    assert_eq!(engine.handle(EngineMessage::Quit), Step::Quit);
}

#[test]
fn go_ages_the_table_and_asks_for_a_search() {
    let mut engine = Engine::with_limits(board(AFTER_E4), 1000, 2);
    assert_eq!(engine.handle(EngineMessage::Go), Step::Search);
    assert_eq!(engine.table().oldest_acceptable_age(), 1);
    assert_eq!(*engine.board(), board(AFTER_E4));
}

#[test]
fn new_game_empties_the_table() {
    let mut engine = Engine::with_limits(board(AFTER_E4), 1000, 2);
    assert_eq!(engine.handle(EngineMessage::Go), Step::Search);
    assert!(engine.go(&CancelToken::new()).is_some());
    assert!(engine.table().len() > 0);
    assert_eq!(engine.handle(EngineMessage::NewGame), Step::Continue);
    assert_eq!(engine.table().len(), 0);
    assert_eq!(engine.table().oldest_acceptable_age(), 0);
    assert_eq!(engine.table().ceiling(), 1000);
    assert_eq!(*engine.board(), board(AFTER_E4));
}

#[test]
fn commands_during_a_search() {
    assert_eq!(during_search(&EngineMessage::Stop), SearchStep::Cancel);
    assert_eq!(
        during_search(&EngineMessage::ReadyCheck),
        SearchStep::Reply(EngineReply::ReadyMessage)
    );
    assert_eq!(during_search(&EngineMessage::Go), SearchStep::Ignore);
    assert_eq!(during_search(&EngineMessage::NewGame), SearchStep::Ignore);
    assert_eq!(during_search(&EngineMessage::Quit), SearchStep::Ignore);
    assert_eq!(
        during_search(&EngineMessage::Position(Board::default(), Vec::new())),
        SearchStep::Ignore
    );
}

#[test]
fn go_replies_with_the_mating_move() {
    let mut engine = Engine::with_limits(board("6k1/5ppp/8/8/8/8/8/R5K1 w - - 0 1"), 100_000, 3);
    assert_eq!(engine.handle(EngineMessage::Go), Step::Search);
    let reply = engine.go(&CancelToken::new());
    assert_eq!(
        reply,
        Some(EngineReply::BestMove(Move { from: 0, to: 56, promotion: None }, 20_000))
    );
}

#[test]
fn the_reply_scores_the_move_for_the_side_that_makes_it() {
    for fen in [
        AFTER_E4,
        "r1bqk2r/pppp1ppp/2n2n2/2b1p3/2B1P3/2N2N2/PPPP1PPP/R1BQK2R w KQkq - 6 5",
        "rnb1kbnr/pppppppp/8/8/8/8/PPPPPPPP/RNBQKBNR w KQkq - 0 1",
    ] {
        // The search keeps the score of the opponent's best answer.
        let mut table = TranspositionTable::with_ceiling(1_000_000);
        let report =
            iterative_deepening(&board(fen), &mut table, &CancelToken::new(), 2).unwrap();
        let mut engine = Engine::with_limits(board(fen), 1_000_000, 2);
        let reply = engine.go(&CancelToken::new());
        assert_eq!(reply, Some(EngineReply::BestMove(report.best_move, -report.score)));
    }
    // A queen up, and the reply says so.
    let mut engine = Engine::with_limits(
        board("rnb1kbnr/pppppppp/8/8/8/8/PPPPPPPP/RNBQKBNR w KQkq - 0 1"),
        1_000_000,
        2,
    );
    assert!(matches!(engine.go(&CancelToken::new()), Some(EngineReply::BestMove(_, s)) if s > 500));
}

#[test]
fn go_on_a_finished_game_has_no_reply() {
    let mut engine = Engine::with_limits(board("7k/5Q2/6K1/8/8/8/8/8 b - - 0 1"), 1000, 3);
    assert_eq!(engine.handle(EngineMessage::Go), Step::Search);
    assert_eq!(engine.go(&CancelToken::new()), None);
    assert_eq!(engine.table().len(), 0);
}

#[test]
fn a_cancelled_go_still_replies() {
    let mut engine = Engine::new(Board::default());
    let stop = CancelToken::new();
    stop.cancel();
    let reply = engine.go(&stop);
    assert!(matches!(reply, Some(EngineReply::BestMove(_, 0))));
    assert_eq!(engine.table().len(), 0);
}

#[test]
fn second_go_answers_from_the_table_with_the_same_move() {
    let mut fresh = Engine::with_limits(Board::default(), 1_000_000, 3);
    assert_eq!(fresh.handle(EngineMessage::Go), Step::Search);
    let from_fresh = fresh.go(&CancelToken::new());

    let mut engine = Engine::with_limits(Board::default(), 1_000_000, 3);
    assert_eq!(engine.handle(EngineMessage::Go), Step::Search);
    let first = engine.go(&CancelToken::new());
    assert_eq!(first, from_fresh);
    let entries = engine.table().len();
    assert!(entries > 0);

    // The root is in the table now, as an exact result of the last depth.
    let root = engine.table().lookup(&Board::default()).unwrap();
    assert_eq!(root.node, NodeType::PV);
    assert_eq!(root.depth, 3);
    assert_eq!(root.age, 0);
    assert!(matches!(
        engine.table().probe(&Board::default(), 1, -100, 100),
        ProbeResult::SearchResult(_, _)
    ));

    assert_eq!(engine.handle(EngineMessage::Go), Step::Search);
    let aged: TableEntry = engine.table().lookup(&Board::default()).unwrap();
    assert_eq!(aged.age, 1);
    assert_eq!(aged.depth, root.depth);
    assert_eq!(aged.score, root.score);
    let second = engine.go(&CancelToken::new());
    assert_eq!(second, from_fresh);
    // Every depth was answered by the table: nothing was searched or stored.
    assert_eq!(engine.table().len(), entries);
}
