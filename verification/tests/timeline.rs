use anvil::timeline::{Document, Entry, Timeline};

fn entry(name: &str, refs: &[usize]) -> Entry {
    Entry { name: name.to_string(), refs: refs.to_vec(), suppressed: false }
}

fn refs(t: &Timeline) -> Vec<Vec<usize>> {
    t.entries.iter().map(|e| e.refs.clone()).collect()
}

fn names(t: &Timeline) -> Vec<String> {
    t.entries.iter().map(|e| e.name.clone()).collect()
}

fn plate() -> Timeline {
    Timeline {
        entries: vec![entry("Sketch", &[]), entry("Extrude", &[0]), entry("Hole", &[1]), entry("Fillet", &[1])],
        rollback: None,
    }
}

#[test]
fn adding_goes_at_the_end_or_at_the_bar() {
    let mut t = plate();
    assert_eq!(t.add_feature(entry("Text", &[2])), 4);
    assert_eq!(refs(&t), vec![vec![], vec![0], vec![1], vec![1], vec![2]]);
    let mut t = plate();
    t.rollback = Some(2);
    assert_eq!(t.add_feature(entry("Shell", &[1])), 2);
    assert_eq!(names(&t), vec!["Sketch", "Extrude", "Shell", "Hole", "Fillet"]);
    assert_eq!(refs(&t), vec![vec![], vec![0], vec![1], vec![1], vec![1]]);
    assert_eq!(t.rollback, Some(3));
}

#[test]
fn removing_a_feature_renumbers_later_references_and_reports_broken_ones() {
    let mut t = plate();
    t.rollback = Some(3);
    let broken = t.remove_feature(1);
    assert_eq!(broken, vec![1, 2]);
    assert_eq!(names(&t), vec!["Sketch", "Hole", "Fillet"]);
    assert_eq!(refs(&t), vec![vec![], vec![usize::MAX], vec![usize::MAX]]);
    assert_eq!(t.rollback, Some(2));
    let mut t = plate();
    assert!(t.remove_feature(9).is_empty());
    assert_eq!(refs(&t), refs(&plate()));
    let mut t = plate();
    assert!(t.remove_feature(3).is_empty());
    assert_eq!(refs(&t), vec![vec![], vec![0], vec![1]]);
}

#[test]
fn moving_keeps_references_valid_or_is_refused() {
    let mut t = plate();
    assert_eq!(t.move_feature(3, 2), Ok(()));
    assert_eq!(names(&t), vec!["Sketch", "Extrude", "Fillet", "Hole"]);
    assert_eq!(refs(&t), vec![vec![], vec![0], vec![1], vec![1]]);
    let mut t = plate();
    assert_eq!(t.move_feature(2, 0), Err("Hole would come before a feature it uses".to_string()));
    assert_eq!(refs(&t), refs(&plate()));
    assert_eq!(t.move_feature(0, 0), Ok(()));
    assert_eq!(t.move_feature(0, 7), Ok(()));
    assert_eq!(names(&t), names(&plate()));
}

#[test]
fn the_bar_moves_and_names_the_first_feature_to_compute() {
    let mut t = plate();
    assert_eq!(t.set_rollback(Some(2)), Some(2));
    assert_eq!(t.rollback, Some(2));
    assert_eq!(t.set_rollback(Some(2)), None);
    assert_eq!(t.set_rollback(Some(1)), Some(1));
    assert_eq!(t.set_rollback(Some(9)), Some(1));
    assert_eq!(t.rollback, None);
}

type Doc = Document<[u8; 3], String>;

fn doc_refs(d: &Doc) -> Vec<Vec<usize>> {
    refs(&d.timeline)
}

#[test]
fn removing_a_feature_renumbers_later_references() {
    let mut doc = Doc::new();
    doc.add_feature("box".to_string(), vec![]);
    doc.add_feature("hole".to_string(), vec![0]);
    doc.add_feature("hole".to_string(), vec![1]);
    doc.add_feature("hole".to_string(), vec![2]);
    assert!(doc_refs(&doc).iter().all(|r| !r.contains(&usize::MAX)));
    // Delete the middle hole: the last hole's reference to it breaks.
    let broken = doc.remove_feature(2);
    assert_eq!(broken, vec![2], "the hole that used the deleted one is flagged");
    assert_eq!(doc_refs(&doc)[2], vec![usize::MAX]);
    // Undo restores everything.
    assert!(doc.undo());
    assert_eq!(doc_refs(&doc), vec![vec![], vec![0], vec![1], vec![2]]);
    // Deleting the last hole breaks nothing.
    let broken = doc.remove_feature(3);
    assert!(broken.is_empty());
    assert_eq!(doc.timeline.entries.len(), 3);
    assert!(doc_refs(&doc).iter().all(|r| !r.contains(&usize::MAX)));
}

#[test]
fn moving_a_feature_keeps_references_valid() {
    let mut doc = Doc::new();
    doc.add_feature("box".to_string(), vec![]);
    doc.add_feature("sphere".to_string(), vec![]);
    doc.add_feature("move".to_string(), vec![0]);
    // Move the sphere to the end: Move/Copy now sits at 1 and still uses the box at 0.
    doc.move_feature(1, 2).unwrap();
    assert_eq!(doc.timeline.entries[1].name, "move");
    assert_eq!(doc_refs(&doc), vec![vec![], vec![0], vec![]]);
    // Moving Move/Copy before the box is refused.
    assert!(doc.move_feature(1, 0).is_err());
}

#[test]
fn each_edit_is_one_undo_step_and_a_no_op_is_none() {
    let mut doc = Doc::new();
    assert!(!doc.can_undo() && !doc.can_redo());
    doc.add_feature("box".to_string(), vec![]);
    doc.add_feature("hole".to_string(), vec![0]);
    doc.appearance.insert(1, [255, 0, 0]);
    doc.material.insert(0, "Steel".to_string());
    assert!(doc.can_undo() && !doc.can_redo());
    // No-ops save nothing: a removal past the end, a move in place, a
    // refused move, a bar that stays.
    assert!(doc.undo());
    assert!(doc.can_redo());
    assert!(doc.remove_feature(7).is_empty());
    assert_eq!(doc.move_feature(0, 0), Ok(()));
    assert_eq!(doc.set_rollback(None), None);
    assert!(doc.can_redo(), "nothing was recorded");
    assert!(doc.redo());
    assert_eq!(doc.move_feature(1, 0), Err("hole would come before a feature it uses".to_string()));
    assert!(!doc.can_redo());
    // A bar that moves is a step, and undo brings the old bar back.
    assert_eq!(doc.set_rollback(Some(1)), Some(1));
    assert_eq!(doc.timeline.rollback, Some(1));
    // Adding while rolled back goes in at the bar; colours and materials
    // follow their features.
    assert_eq!(doc.add_feature("fillet".to_string(), vec![0]), 1);
    assert_eq!(doc.timeline.rollback, Some(2));
    assert_eq!(doc.appearance.get(&2), Some(&[255, 0, 0]));
    assert_eq!(doc.material.get(&0), Some(&"Steel".to_string()));
    assert!(!doc.timeline.entries[1].suppressed);
    doc.set_suppressed(1, true);
    assert!(doc.timeline.entries[1].suppressed);
    assert!(doc.undo());
    assert!(!doc.timeline.entries[1].suppressed);
    assert!(doc.undo());
    assert_eq!(doc.timeline.entries.len(), 2);
    assert!(doc.undo());
    assert_eq!(doc.timeline.rollback, None);
}
