use anvil::document::{add_position, bar_after_remove, bar_move, renumber, rolled_back, Renumber};
use anvil::region_select::{parse, toggle};

#[test]
fn insert_then_remove_gives_references_back() {
    for at in 0..5 {
        for x in 0..8 {
            let y = renumber(&Renumber::Insert(at), x).unwrap();
            assert_eq!(renumber(&Renumber::Remove(at), y), Some(x));
        }
    }
}

#[test]
fn moving_back_gives_references_back() {
    for from in 0..5 {
        for to in 0..5 {
            let mut seen = Vec::new();
            for x in 0..5 {
                let y = renumber(&Renumber::Move(from, to), x).unwrap();
                assert!(y < 5);
                assert!(!seen.contains(&y));
                seen.push(y);
                assert_eq!(renumber(&Renumber::Move(to, from), y), Some(x));
            }
        }
    }
}

#[test]
fn removing_keeps_what_is_held_back() {
    let len = 5;
    for bar in [None, Some(0), Some(2), Some(4)] {
        for idx in 0..len {
            let new_bar = bar_after_remove(bar, idx, len - 1);
            for j in (0..len).filter(|&j| j != idx) {
                let k = renumber(&Renumber::Remove(idx), j).unwrap();
                assert_eq!(rolled_back(new_bar, k), rolled_back(bar, j));
            }
        }
    }
}

#[test]
fn adding_at_the_bar_keeps_what_is_held_back() {
    let (at, bar) = add_position(Some(2), 4);
    assert_eq!(at, 2);
    assert!(!rolled_back(bar, at));
    for j in 0..4 {
        let k = renumber(&Renumber::Insert(at), j).unwrap();
        assert_eq!(rolled_back(bar, k), rolled_back(Some(2), j));
    }
}

#[test]
fn what_format_writes_parse_reads() {
    for v in [vec![0], vec![3, 10, 11], vec![0, 1, 2, 3, 4, 5, 6, 7, 8, 9, 10]] {
        assert_eq!(parse(&anvil::region_select::format(&v)), Some(v.clone()));
    }
}

#[test]
fn a_second_click_undoes_the_first() {
    let d = [true, false, true, true];
    for spec in ["", "1", "0,3", "2, 1", "1,7"] {
        for i in 0..4 {
            let once = toggle(&d, spec, i);
            let twice = toggle(&d, &once, i);
            let before: Vec<usize> = (0..4).filter(|&k| anvil::region_select::is_selected(&d, spec, k)).collect();
            let after: Vec<usize> = (0..4).filter(|&k| anvil::region_select::is_selected(&d, &twice, k)).collect();
            let mut left = before.clone();
            match left.iter().position(|&k| k == i) {
                Some(p) => {
                    left.remove(p);
                }
                None => left.push(i),
            }
            if !left.is_empty() {
                assert_eq!(before, after, "spec {spec:?} click {i}");
            }
        }
    }
}

#[test]
fn different_features_stay_apart_in_a_small_history() {
    let n = 5usize;
    let mut changes = vec![Renumber::Insert(0), Renumber::Insert(5), Renumber::Remove(0), Renumber::Remove(4)];
    for from in 0..n {
        for to in 0..n {
            changes.push(Renumber::Move(from, to));
        }
    }
    for m in &changes {
        let kept: Vec<usize> = (0..n).filter_map(|x| renumber(m, x)).collect();
        for a in 0..kept.len() {
            for b in a + 1..kept.len() {
                assert_ne!(kept[a], kept[b], "{m:?}");
            }
        }
    }
}

#[test]
fn moving_the_bar_recomputes_every_feature_it_changes() {
    let len = 4usize;
    let bars = [None, Some(0), Some(1), Some(3), Some(4), Some(9)];
    for &from in &[None, Some(0), Some(2), Some(3)] {
        for &at in &bars {
            let (bar, first) = bar_move(from, at, len);
            if let Some(b) = bar {
                assert!(b < len);
            }
            for idx in 0..len + 2 {
                if rolled_back(from, idx) != rolled_back(bar, idx) {
                    assert!(matches!(first, Some(f) if f <= idx), "{from:?} {at:?} {idx}");
                }
            }
        }
    }
    assert_eq!(bar_move(Some(3), Some(1), 5), (Some(1), Some(1)));
    assert_eq!(bar_move(Some(3), Some(3), 5), (Some(3), None));
    assert_eq!(bar_move(Some(2), None, 5), (None, Some(2)));
}
