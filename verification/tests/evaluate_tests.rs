use cozy_chess::Board;
use soup_tadpole::evaluate::{
    calculate_mobility, count_material, count_moves, evaluate, MATE_SCORE, MOBILITY_WEIGHT,
};
use soup_tadpole::position::Color;

fn board(fen: &str) -> Board {
    fen.parse::<Board>().unwrap()
}

#[test]
fn constants() {
    assert_eq!(MATE_SCORE, 20_000);
    assert_eq!(MOBILITY_WEIGHT, 10);
}

#[test]
fn material_of_the_start_position() {
    let start = Board::default();
    // 8 pawns, 2 knights, 2 bishops, 2 rooks, a queen.
    assert_eq!(count_material(&start, Color::White), 800 + 640 + 660 + 1000 + 900);
    assert_eq!(count_material(&start, Color::Black), 4000);
}

#[test]
fn material_counts_each_side_and_kind() {
    let b = board("4k3/8/8/8/8/8/PP6/RNBQK3 w Q - 0 1");
    assert_eq!(count_material(&b, Color::White), 200 + 320 + 330 + 500 + 900);
    assert_eq!(count_material(&b, Color::Black), 0);
    let b = board("1n2k3/p7/8/8/8/8/8/4K3 w - - 0 1");
    assert_eq!(count_material(&b, Color::White), 0);
    assert_eq!(count_material(&b, Color::Black), 420);
}

#[test]
fn twenty_moves_at_the_start() {
    assert_eq!(count_moves(&Board::default()), 20);
}

#[test]
fn mobility_of_either_side() {
    let b = board("rnbqkbnr/pppppppp/8/8/4P3/8/PPPP1PPP/RNBQKBNR b KQkq e3 0 1");
    assert_eq!(calculate_mobility(&b, Color::Black), 20);
    // White's mobility is counted as if Black had passed.
    assert_eq!(calculate_mobility(&b, Color::White), 30);
}

#[test]
fn no_mobility_for_the_opponent_of_a_side_in_check() {
    // White is in check and cannot pass.
    let b = board("4k3/8/8/8/8/8/4r3/4K3 w - - 0 1");
    assert_eq!(calculate_mobility(&b, Color::Black), 0);
    assert_eq!(calculate_mobility(&b, Color::White), count_moves(&b));
}

#[test]
fn start_position_is_level() {
    assert_eq!(evaluate(&Board::default()), 0);
}

#[test]
fn evaluation_is_for_the_side_to_move() {
    let b = board("rnbqkbnr/pppppppp/8/8/4P3/8/PPPP1PPP/RNBQKBNR b KQkq e3 0 1");
    // Material is level; Black has 20 moves and White would have 30.
    assert_eq!(evaluate(&b), 10 * (20 - 30));
    // White is a queen up. Without its queen Black has a 21st move, of the
    // king to d8.
    let white_up = board("rnb1kbnr/pppppppp/8/8/8/8/PPPPPPPP/RNBQKBNR w KQkq - 0 1");
    assert_eq!(evaluate(&white_up), 900 + 10 * (20 - 21));
    let black_down = board("rnb1kbnr/pppppppp/8/8/8/8/PPPPPPPP/RNBQKBNR b KQkq - 0 1");
    assert_eq!(evaluate(&black_down), -900 + 10 * (21 - 20));
}

#[test]
fn checkmate_is_lost_for_the_side_to_move() {
    let white_mated = board("rnb1kbnr/pppp1ppp/8/4p3/6Pq/5P2/PPPPP2P/RNBQKBNR w KQkq - 1 3");
    assert_eq!(evaluate(&white_mated), -20_000);
    let black_mated = board("R5k1/5ppp/8/8/8/8/8/6K1 b - - 1 1");
    assert_eq!(evaluate(&black_mated), -20_000);
}

#[test]
fn stalemate_is_exactly_zero() {
    let b = board("7k/5Q2/6K1/8/8/8/8/8 b - - 0 1");
    assert_eq!(count_moves(&b), 0);
    assert_eq!(evaluate(&b), 0);
}

#[test]
fn a_hundred_quiet_half_moves_are_a_draw() {
    let b = board("4k3/8/8/8/8/8/8/QQQQK3 w - - 100 80");
    assert_eq!(evaluate(&b), 0);
}
