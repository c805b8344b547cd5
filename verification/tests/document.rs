use anvil::document::{
    add_position, bad_ref_text, bar_after_remove, bar_move, move_blocker, remap_keys, renumber, rolled_back, RegenError,
    Renumber,
};
use std::collections::HashMap;
use anvil::expr::ExprError;

#[test]
fn renumbering_after_insert_remove_and_move() {
    assert_eq!(renumber(&Renumber::Insert(2), 1), Some(1));
    assert_eq!(renumber(&Renumber::Insert(2), 2), Some(3));
    assert_eq!(renumber(&Renumber::Remove(2), 2), None);
    assert_eq!(renumber(&Renumber::Remove(2), 5), Some(4));
    assert_eq!(renumber(&Renumber::Remove(2), usize::MAX), Some(usize::MAX));
    assert_eq!(renumber(&Renumber::Move(1, 3), 1), Some(3));
    assert_eq!(renumber(&Renumber::Move(1, 3), 2), Some(1));
    assert_eq!(renumber(&Renumber::Move(1, 3), 3), Some(2));
    assert_eq!(renumber(&Renumber::Move(3, 1), 1), Some(2));
    assert_eq!(renumber(&Renumber::Move(3, 1), 4), Some(4));
}

#[test]
fn the_rollback_bar() {
    assert!(rolled_back(Some(2), 2));
    assert!(!rolled_back(Some(2), 1));
    assert!(!rolled_back(None, 7));
    assert_eq!(add_position(Some(1), 4), (1, Some(2)));
    assert_eq!(add_position(None, 4), (4, None));
    assert_eq!(bar_after_remove(Some(3), 1, 4), Some(2));
    assert_eq!(bar_after_remove(Some(3), 3, 3), None);
    assert_eq!(bar_after_remove(Some(1), 3, 4), Some(1));
    assert_eq!(bar_move(Some(2), Some(5), 4), (None, Some(2)));
    assert_eq!(bar_move(None, Some(1), 4), (Some(1), Some(1)));
    assert_eq!(bar_move(Some(1), Some(1), 4), (Some(1), None));
}

#[test]
fn a_move_before_a_dependency_is_refused() {
    // 0: sketch, 1: extrude of 0, 2: fillet of 1.
    let refs = vec![vec![], vec![0], vec![1]];
    assert_eq!(move_blocker(&refs, 1, 0), Some(0));
    assert_eq!(move_blocker(&refs, 2, 1), Some(1));
    assert_eq!(move_blocker(&refs, 0, 0), None);
    let free = vec![vec![], vec![0], vec![0]];
    assert_eq!(move_blocker(&free, 2, 1), None);
    let deleted = vec![vec![usize::MAX], vec![]];
    assert_eq!(move_blocker(&deleted, 0, 1), None);
}

#[test]
fn regen_errors_read_as_messages() {
    assert_eq!(bad_ref_text(&4, &usize::MAX, "sketch"), "feature 4 uses a feature that was deleted; choose a new sketch in Properties");
    assert_eq!(bad_ref_text(&4, &1, "body"), "feature 4 uses feature 1, which has no body");
    assert_eq!(RegenError::BadReference(2, 0, "plane").message(), "feature 2 uses feature 0, which has no plane");
    assert_eq!(RegenError::Other("x".into()).message(), "x");
    assert_eq!(RegenError::Expr(ExprError::DivZero).message(), "expression error: division by zero");
}

#[test]
fn undo_and_redo_walk_the_history() {
    let mut h: anvil::document::History<u32> = anvil::document::History::new();
    let mut cur = 1u32;
    assert!(!h.can_undo());
    assert!(!h.undo(&mut cur));
    assert_eq!(cur, 1);
    h.record(cur);
    cur = 2;
    h.record(cur);
    cur = 3;
    assert!(h.undo(&mut cur));
    assert_eq!(cur, 2);
    assert!(h.can_redo());
    assert!(h.undo(&mut cur));
    assert_eq!(cur, 1);
    assert!(!h.can_undo());
    assert!(h.redo(&mut cur));
    assert!(h.redo(&mut cur));
    assert_eq!(cur, 3);
    assert!(!h.redo(&mut cur));
}

#[test]
fn an_edit_forgets_what_was_undone() {
    let mut h: anvil::document::History<u32> = anvil::document::History::new();
    let mut cur = 1u32;
    h.record(cur);
    cur = 2;
    assert!(h.undo(&mut cur));
    assert!(h.can_redo());
    h.record(cur);
    assert!(!h.can_redo());
}

#[test]
fn at_most_two_hundred_edits_can_be_undone() {
    let mut h: anvil::document::History<u32> = anvil::document::History::new();
    let mut cur = 0u32;
    for i in 0..250u32 {
        h.record(i);
        cur = i + 1;
    }
    let mut steps = 0;
    while h.undo(&mut cur) {
        steps += 1;
    }
    assert_eq!(steps, anvil::document::MAX_UNDO);
    assert_eq!(cur, 50);
}

fn colours() -> HashMap<usize, &'static str> {
    let mut m = HashMap::new();
    m.insert(0, "red");
    m.insert(2, "blue");
    m.insert(3, "green");
    m
}

#[test]
fn colours_follow_their_features() {
    let mut m = colours();
    remap_keys(&mut m, &Renumber::Remove(2));
    assert_eq!(m, HashMap::from([(0, "red"), (2, "green")]));

    let mut m = colours();
    remap_keys(&mut m, &Renumber::Insert(1));
    assert_eq!(m, HashMap::from([(0, "red"), (3, "blue"), (4, "green")]));

    let mut m = colours();
    remap_keys(&mut m, &Renumber::Move(0, 3));
    assert_eq!(m, HashMap::from([(3, "red"), (1, "blue"), (2, "green")]));

    let mut empty: HashMap<usize, &str> = HashMap::new();
    remap_keys(&mut empty, &Renumber::Remove(0));
    assert!(empty.is_empty());
}
