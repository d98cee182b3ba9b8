use cozy_chess::Board;
use soup_tadpole::position::Move;
use soup_tadpole::transposition_table::{
    age_entry, fresh, probe_entry, NodeType, ProbeResult, TableEntry, TranspositionTable, MAX_SIZE,
};

fn mv(from: u8, to: u8) -> Move {
    Move { from, to, promotion: None }
}

fn entry(best: Move, depth: u32, score: i32, node: NodeType, age: i32) -> TableEntry {
    TableEntry { best_response: best, depth, score, node, age }
}

fn board(fen: &str) -> Board {
    fen.parse::<Board>().unwrap()
}

fn after_e4() -> Board {
    board("rnbqkbnr/pppppppp/8/8/4P3/8/PPPP1PPP/RNBQKBNR b KQkq e3 0 1")
}

fn after_d4() -> Board {
    board("rnbqkbnr/pppppppp/8/8/3P4/8/PPP1PPPP/RNBQKBNR b KQkq d3 0 1")
}

fn after_c4() -> Board {
    board("rnbqkbnr/pppppppp/8/8/2P5/8/PP1PPPPP/RNBQKBNR b KQkq c3 0 1")
}

#[test]
fn new_table_is_empty_with_default_ceiling() {
    let table = TranspositionTable::new();
    assert_eq!(table.len(), 0);
    assert_eq!(table.ceiling(), MAX_SIZE);
    assert_eq!(table.ceiling(), 42_000_000);
    assert_eq!(table.oldest_acceptable_age(), 0);
    assert_eq!(table.probe(&Board::default(), 1, -100, 100), ProbeResult::Miss);
    assert!(table.lookup(&Board::default()).is_none());
}

#[test]
fn default_table_is_a_new_table() {
    let table = TranspositionTable::default();
    assert_eq!(table.len(), 0);
    assert_eq!(table.ceiling(), MAX_SIZE);
    assert_eq!(table.oldest_acceptable_age(), 0);
}

#[test]
fn probe_misses_a_position_that_was_never_inserted() {
    let mut table = TranspositionTable::with_ceiling(100);
    table.insert(&after_e4(), entry(mv(52, 36), 4, 25, NodeType::PV, 0));
    assert_eq!(table.probe(&after_d4(), 1, -100, 100), ProbeResult::Miss);
    assert_eq!(table.len(), 1);
}

#[test]
fn exact_entry_round_trip() {
    let mut table = TranspositionTable::with_ceiling(100);
    let pos = Board::default();
    table.insert(&pos, entry(mv(12, 28), 4, 37, NodeType::PV, 0));
    for depth in 0..=4 {
        assert_eq!(
            table.probe(&pos, depth, -1000, 1000),
            ProbeResult::SearchResult(mv(12, 28), 37)
        );
    }
    // The window plays no part for an exact score.
    assert_eq!(table.probe(&pos, 4, 500, 600), ProbeResult::SearchResult(mv(12, 28), 37));
    assert_eq!(table.probe(&pos, 5, -1000, 1000), ProbeResult::OrderingHint(mv(12, 28)));
    assert_eq!(table.probe(&pos, 9, -1000, 1000), ProbeResult::OrderingHint(mv(12, 28)));
}

#[test]
fn upper_bound_entry_answers_only_below_alpha() {
    let mut table = TranspositionTable::with_ceiling(100);
    let pos = Board::default();
    table.insert(&pos, entry(mv(12, 28), 3, 50, NodeType::All, 0));
    assert_eq!(table.probe(&pos, 3, 50, 200), ProbeResult::SearchResult(mv(12, 28), 50));
    assert_eq!(table.probe(&pos, 2, 80, 200), ProbeResult::SearchResult(mv(12, 28), 80));
    assert_eq!(table.probe(&pos, 3, 49, 200), ProbeResult::OrderingHint(mv(12, 28)));
    assert_eq!(table.probe(&pos, 4, 80, 200), ProbeResult::OrderingHint(mv(12, 28)));
}

#[test]
fn lower_bound_entry_answers_only_above_beta() {
    let mut table = TranspositionTable::with_ceiling(100);
    let pos = Board::default();
    table.insert(&pos, entry(mv(6, 21), 3, 50, NodeType::Cut, 0));
    assert_eq!(table.probe(&pos, 3, -200, 50), ProbeResult::SearchResult(mv(6, 21), 50));
    assert_eq!(table.probe(&pos, 1, -200, 20), ProbeResult::SearchResult(mv(6, 21), 20));
    assert_eq!(table.probe(&pos, 3, -200, 51), ProbeResult::OrderingHint(mv(6, 21)));
    assert_eq!(table.probe(&pos, 4, -200, 20), ProbeResult::OrderingHint(mv(6, 21)));
}

#[test]
fn probe_entry_on_each_kind() {
    assert_eq!(probe_entry(None, 0, 0, 0), ProbeResult::Miss);
    let exact = entry(mv(1, 18), 2, -7, NodeType::PV, 0);
    assert_eq!(probe_entry(Some(exact), 2, 0, 1), ProbeResult::SearchResult(mv(1, 18), -7));
    assert_eq!(probe_entry(Some(exact), 3, 0, 1), ProbeResult::OrderingHint(mv(1, 18)));
    let upper = entry(mv(1, 18), 2, -7, NodeType::All, 0);
    assert_eq!(probe_entry(Some(upper), 2, -7, 1), ProbeResult::SearchResult(mv(1, 18), -7));
    assert_eq!(probe_entry(Some(upper), 2, -8, 1), ProbeResult::OrderingHint(mv(1, 18)));
    let lower = entry(mv(1, 18), 2, -7, NodeType::Cut, 0);
    assert_eq!(probe_entry(Some(lower), 2, -20, -7), ProbeResult::SearchResult(mv(1, 18), -7));
    assert_eq!(probe_entry(Some(lower), 2, -20, -6), ProbeResult::OrderingHint(mv(1, 18)));
}

#[test]
fn shallower_entry_does_not_replace_deeper() {
    let mut table = TranspositionTable::with_ceiling(100);
    let pos = Board::default();
    table.insert(&pos, entry(mv(12, 28), 5, 40, NodeType::PV, 0));
    table.insert(&pos, entry(mv(11, 27), 2, -90, NodeType::PV, 0));
    let stored = table.lookup(&pos).unwrap();
    assert_eq!(stored.depth, 5);
    assert_eq!(stored.score, 40);
    assert_eq!(stored.best_response, mv(12, 28));
    assert_eq!(table.probe(&pos, 5, -1000, 1000), ProbeResult::SearchResult(mv(12, 28), 40));
    assert_eq!(table.len(), 1);
}

#[test]
fn equal_or_deeper_entry_replaces() {
    let mut table = TranspositionTable::with_ceiling(100);
    let pos = Board::default();
    table.insert(&pos, entry(mv(12, 28), 3, 40, NodeType::PV, 0));
    table.insert(&pos, entry(mv(11, 27), 3, 15, NodeType::Cut, 0));
    let stored = table.lookup(&pos).unwrap();
    assert_eq!(stored.best_response, mv(11, 27));
    assert_eq!(stored.score, 15);
    assert_eq!(stored.node, NodeType::Cut);
    table.insert(&pos, entry(mv(6, 21), 7, -3, NodeType::All, 0));
    let stored = table.lookup(&pos).unwrap();
    assert_eq!(stored.depth, 7);
    assert_eq!(stored.best_response, mv(6, 21));
    assert_eq!(table.len(), 1);
}

#[test]
fn age_makes_every_entry_older_and_advances_the_threshold() {
    let mut table = TranspositionTable::with_ceiling(100);
    table.insert(&after_e4(), entry(mv(52, 36), 1, 0, NodeType::PV, 0));
    table.insert(&after_d4(), entry(mv(51, 35), 1, 0, NodeType::PV, 4));
    table.age();
    assert_eq!(table.oldest_acceptable_age(), 1);
    assert_eq!(table.lookup(&after_e4()).unwrap().age, 1);
    assert_eq!(table.lookup(&after_d4()).unwrap().age, 5);
    table.age();
    table.age();
    assert_eq!(table.oldest_acceptable_age(), 3);
    assert_eq!(table.lookup(&after_e4()).unwrap().age, 3);
    assert_eq!(table.lookup(&after_d4()).unwrap().age, 7);
    // Nothing else about an entry changes.
    let stored = table.lookup(&after_d4()).unwrap();
    assert_eq!(stored.best_response, mv(51, 35));
    assert_eq!(stored.depth, 1);
    assert_eq!(stored.node, NodeType::PV);
    assert_eq!(table.len(), 2);
}

#[test]
fn age_entry_stops_at_the_largest_age() {
    let e = entry(mv(0, 8), 2, 5, NodeType::All, 41);
    let older = age_entry(e);
    assert_eq!(older.age, 42);
    assert_eq!(older.depth, 2);
    assert_eq!(older.score, 5);
    assert_eq!(older.node, NodeType::All);
    assert_eq!(older.best_response, mv(0, 8));
    let oldest = age_entry(entry(mv(0, 8), 2, 5, NodeType::All, i32::MAX));
    assert_eq!(oldest.age, i32::MAX);
}

#[test]
fn fresh_is_age_up_to_the_threshold() {
    let e = entry(mv(0, 8), 2, 5, NodeType::All, 3);
    assert!(fresh(&e, 3));
    assert!(fresh(&e, 4));
    assert!(!fresh(&e, 2));
}

#[test]
fn age_and_prune_both_raise_the_threshold() {
    let mut table = TranspositionTable::with_ceiling(100);
    table.prune();
    assert_eq!(table.oldest_acceptable_age(), 1);
    table.age();
    assert_eq!(table.oldest_acceptable_age(), 2);
    table.prune();
    table.prune();
    assert_eq!(table.oldest_acceptable_age(), 4);
}

#[test]
fn prune_removes_exactly_the_stale_entries() {
    let mut table = TranspositionTable::with_ceiling(100);
    table.insert(&after_e4(), entry(mv(52, 36), 1, 10, NodeType::PV, 0));
    table.insert(&after_d4(), entry(mv(51, 35), 1, 20, NodeType::PV, 1));
    table.insert(&after_c4(), entry(mv(50, 34), 1, 30, NodeType::PV, 2));
    table.age();
    // Threshold 1; ages 1, 2, 3.
    table.prune();
    assert_eq!(table.len(), 1);
    assert_eq!(table.lookup(&after_e4()).unwrap().score, 10);
    assert_eq!(table.lookup(&after_e4()).unwrap().age, 1);
    assert!(table.lookup(&after_d4()).is_none());
    assert!(table.lookup(&after_c4()).is_none());
    assert_eq!(table.oldest_acceptable_age(), 2);
    // The pass before raised the threshold, so this one takes nothing.
    table.prune();
    assert_eq!(table.len(), 1);
    assert_eq!(table.lookup(&after_e4()).unwrap().age, 1);
    assert_eq!(table.oldest_acceptable_age(), 3);
}

#[test]
fn an_entry_at_the_threshold_is_kept() {
    let mut table = TranspositionTable::with_ceiling(100);
    table.insert(&after_e4(), entry(mv(52, 36), 1, 10, NodeType::PV, 0));
    table.insert(&after_d4(), entry(mv(51, 35), 1, 20, NodeType::PV, 1));
    // Threshold 0; ages 0 and 1.
    table.prune();
    assert!(table.lookup(&after_e4()).is_some());
    assert!(table.lookup(&after_d4()).is_none());
}

#[test]
fn aging_does_not_make_a_fresh_entry_stale() {
    let mut table = TranspositionTable::with_ceiling(100);
    table.insert(&after_e4(), entry(mv(52, 36), 1, 10, NodeType::PV, 0));
    table.insert(&after_d4(), entry(mv(51, 35), 1, 20, NodeType::PV, 1));
    for _ in 0..5 {
        table.age();
    }
    table.prune();
    assert_eq!(table.lookup(&after_e4()).unwrap().age, 5);
    assert!(table.lookup(&after_d4()).is_none());
}

#[test]
fn insert_evicts_when_about_to_reach_the_ceiling() {
    let mut table = TranspositionTable::with_ceiling(3);
    table.insert(&after_e4(), entry(mv(52, 36), 1, 10, NodeType::PV, 1));
    assert_eq!(table.len(), 1);
    assert_eq!(table.oldest_acceptable_age(), 0);
    table.insert(&after_d4(), entry(mv(51, 35), 1, 20, NodeType::PV, 0));
    assert_eq!(table.len(), 2);
    assert_eq!(table.oldest_acceptable_age(), 0);
    // Two entries and a ceiling of three: the pass runs, and drops the entry
    // of age 1.
    table.insert(&after_c4(), entry(mv(50, 34), 1, 30, NodeType::PV, 0));
    assert_eq!(table.len(), 2);
    assert!(table.lookup(&after_e4()).is_none());
    assert_eq!(table.lookup(&after_d4()).unwrap().score, 20);
    assert_eq!(table.lookup(&after_c4()).unwrap().score, 30);
    assert_eq!(table.oldest_acceptable_age(), 1);
    assert!(table.len() <= table.ceiling());
}

#[test]
fn eviction_can_take_the_deeper_entry_of_the_position_inserted() {
    let mut table = TranspositionTable::with_ceiling(1);
    let pos = Board::default();
    table.insert(&pos, entry(mv(12, 28), 5, 40, NodeType::PV, 3));
    assert_eq!(table.lookup(&pos).unwrap().depth, 5);
    table.insert(&pos, entry(mv(11, 27), 1, 7, NodeType::PV, -5));
    assert_eq!(table.lookup(&pos).unwrap().depth, 1);
}

#[test]
fn a_full_table_of_fresh_entries_still_takes_a_new_position() {
    let mut table = TranspositionTable::with_ceiling(2);
    table.insert(&after_e4(), entry(mv(52, 36), 1, 10, NodeType::PV, -9));
    table.insert(&after_d4(), entry(mv(51, 35), 1, 20, NodeType::PV, -9));
    assert_eq!(table.len(), 2);
    table.insert(&after_c4(), entry(mv(50, 34), 1, 30, NodeType::PV, -9));
    assert_eq!(table.len(), 3);
}
