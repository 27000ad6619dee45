use keres_engine::board::{Board, Position};
use keres_engine::engine::constants::{MAX_KILLER_DEPTH, TT_SIZE};
use keres_engine::engine::search::killer::KillerTable;
use keres_engine::engine::search::loop_detection::LoopDetector;
use keres_engine::engine::tree_recorder::TreeRecorder;
use keres_engine::engine::tt::{BoundType, TranspositionTable};
use keres_engine::engine::zobrist::hash_board;
use keres_engine::game::{Game, Move};

fn make_move(fx: usize, fy: usize, tx: usize, ty: usize) -> Move {
    Move { from: Position::new(fx, fy), to: Position::new(tx, ty), unstack: false }
}

#[test]
fn store_and_retrieve_killer() {
    let mut kt = KillerTable::new(MAX_KILLER_DEPTH);
    let mv = make_move(0, 0, 1, 1);
    kt.store(3, mv);
    assert!(kt.is_killer(3, mv));
}

#[test]
fn second_killer_does_not_evict_first() {
    let mut kt = KillerTable::new(MAX_KILLER_DEPTH);
    let mv1 = make_move(0, 0, 1, 1);
    let mv2 = make_move(2, 2, 3, 3);
    kt.store(2, mv1);
    kt.store(2, mv2);
    assert!(kt.is_killer(2, mv1));
    assert!(kt.is_killer(2, mv2));
}

#[test]
fn duplicate_killer_not_stored_twice() {
    let mut kt = KillerTable::new(MAX_KILLER_DEPTH);
    let mv = make_move(4, 4, 5, 5);
    kt.store(1, mv);
    kt.store(1, mv);
    let killers = kt.get(1);
    let count = killers.iter().filter(|k| **k == Some(mv)).count();
    assert_eq!(count, 1);
}

#[test]
fn third_killer_evicts_oldest() {
    let mut kt = KillerTable::new(MAX_KILLER_DEPTH);
    let mv1 = make_move(0, 0, 1, 1);
    let mv2 = make_move(2, 2, 3, 3);
    let mv3 = make_move(4, 4, 5, 5);
    kt.store(5, mv1);
    kt.store(5, mv2);
    kt.store(5, mv3);
    assert!(!kt.is_killer(5, mv1));
    assert_eq!(kt.get(5), &[Some(mv3), Some(mv2)][..]);
    assert!(!kt.is_killer(4, mv3));
}

#[test]
fn new_hash_is_not_duplicate() {
    let mut ld = LoopDetector::new();
    assert!(!ld.push(42));
}

#[test]
fn repeated_hash_is_detected() {
    let mut ld = LoopDetector::new();
    ld.push(42);
    assert!(ld.push(42));
}

#[test]
fn pop_removes_hash() {
    let mut ld = LoopDetector::new();
    ld.push(42);
    ld.pop(42);
    assert!(!ld.contains(42));
}

#[test]
fn different_hashes_do_not_conflict() {
    let mut ld = LoopDetector::new();
    ld.push(1);
    assert!(!ld.push(2));
}

fn make_hash() -> u64 {
    let game = Game::new();
    game.board_hash()
}

#[test]
fn tt_store_and_retrieve() {
    let mut tt = TranspositionTable::new(TT_SIZE);
    let hash = make_hash();
    tt.store(hash, 3, 42, BoundType::Exact, None);
    let entry = tt.get(hash).expect("entry should be present");
    assert_eq!(entry.score, 42);
    assert_eq!(entry.bound_type, BoundType::Exact);
    assert_eq!(entry.remaining_depth, 3);
}

#[test]
fn tt_replacement_policy_replaces_on_equal_depth() {
    let mut tt = TranspositionTable::new(TT_SIZE);
    let hash = make_hash();
    tt.store(hash, 2, 10, BoundType::UpperBound, None);
    tt.store(hash, 2, 20, BoundType::Exact, None);
    let entry = tt.get(hash).expect("entry should be present");
    assert_eq!(entry.score, 20);
}

#[test]
fn tt_replacement_policy_keeps_deeper_entry() {
    let mut tt = TranspositionTable::new(TT_SIZE);
    let hash = make_hash();
    tt.store(hash, 5, 99, BoundType::Exact, None);
    tt.store(hash, 2, 1, BoundType::Exact, None);
    let entry = tt.get(hash).expect("entry should be present");
    assert_eq!(entry.score, 99);
}

#[test]
fn tt_miss_on_other_hash_in_same_slot() {
    let mut tt = TranspositionTable::new(3);
    tt.store(5, 1, 7, BoundType::LowerBound, None);
    assert!(tt.get(5).is_some());
    assert!(tt.get(1).is_none());
    assert!(tt.get(6).is_none());
}

#[test]
fn tt_size_is_rounded_down_to_a_power_of_two() {
    // Three slots round down to two: hashes 5 and 3 share slot 1.
    let mut tt = TranspositionTable::new(3);
    tt.store(5, 1, 7, BoundType::Exact, None);
    tt.store(3, 1, 8, BoundType::Exact, None);
    assert!(tt.get(5).is_none());
    assert_eq!(tt.get(3).unwrap().score, 8);
    // Four slots keep them apart.
    let mut tt = TranspositionTable::new(4);
    tt.store(5, 1, 7, BoundType::Exact, None);
    tt.store(3, 1, 8, BoundType::Exact, None);
    assert_eq!(tt.get(5).unwrap().score, 7);
}

#[test]
fn board_hash_is_deterministic() {
    let h1 = make_hash();
    let h2 = make_hash();
    assert_eq!(h1, h2);
}

#[test]
fn board_hash_differs_for_different_boards() {
    let game1 = Game::new();
    let game2 = Game::from_board(Board::empty());
    assert_ne!(game1.board_hash(), game2.board_hash());
}

#[test]
fn hash_is_deterministic() {
    let b = Board::new();
    let h1 = hash_board(&b);
    let h2 = hash_board(&b);
    assert_eq!(h1, h2);
}

#[test]
fn different_side_to_move_gives_different_hash() {
    let b1 = Board::new();
    let mut b2 = Board::new();
    b2.set_white_to_move(false);
    assert_ne!(hash_board(&b1), hash_board(&b2));
}

#[test]
fn hash_is_nonzero_for_starting_position() {
    let h = hash_board(&Board::new());
    assert_ne!(h, 0, "hash of starting position should be nonzero");
}

#[test]
fn ids_are_monotonically_increasing() {
    let mut recorder = TreeRecorder::new();
    let mv = Move { from: Position::new(0, 0), to: Position::new(1, 1), unstack: false };
    let id1 = recorder.record_node(0, 0, &mv, 0);
    let id2 = recorder.record_node(0, 0, &mv, 0);
    assert!(id2 > id1);
}

#[test]
fn recorded_node_keeps_its_score_and_move() {
    let mut recorder = TreeRecorder::new();
    let mv = Move { from: Position::new(0, 0), to: Position::new(1, 1), unstack: false };
    let id = recorder.record_node(0, 1, &mv, 0);
    assert_eq!(id, 1);
    recorder.update_score(id, 42);
    recorder.update_score(77, 5);
    let records = recorder.into_records();
    assert_eq!(records.len(), 1);
    assert_eq!(records[0].score, 42);
    assert_eq!(records[0].depth, 1);
    assert_eq!(records[0].mv, "A9B8");
}

#[test]
fn update_score_is_reflected_in_flush() {
    let mut recorder = TreeRecorder::new();
    let mv = Move { from: Position::new(0, 0), to: Position::new(1, 1), unstack: false };
    let id = recorder.record_node(0, 0, &mv, 0);
    recorder.update_score(id, 99);
    let records = recorder.into_records();
    assert!(records.iter().any(|r| r.score == 99), "expected score 99 in output");
}
