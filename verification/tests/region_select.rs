use anvil::region_select::{find, is_selected, parse, picked, toggle, union};
use anvil::document::RegenError;

#[test]
fn toggle_from_default_and_back() {
    // Three separate squares: three regions, every one used by default.
    let r = [true, true, true];
    assert_eq!(toggle(&r, "", 1), "0,2");
    assert_eq!(toggle(&r, "0,2", 1), "");
    assert_eq!(toggle(&r, "0", 0), "");
    assert!(is_selected(&r, "", 2));
    assert!(!is_selected(&r, "0,2", 1));
}

#[test]
fn parse_reads_lists_and_defaults() {
    assert_eq!(parse(""), None);
    assert_eq!(parse("  "), None);
    assert_eq!(parse("All"), None);
    assert_eq!(parse(" ALL "), None);
    assert_eq!(parse("2, 0 2,x,+3"), Some(vec![0, 2, 3]));
    assert_eq!(parse("nothing"), Some(vec![]));
    assert_eq!(parse("18446744073709551616,1"), Some(vec![1]));
}

#[test]
fn format_joins_with_commas() {
    assert_eq!(anvil::region_select::format(&[]), "");
    assert_eq!(anvil::region_select::format(&[7]), "7");
    assert_eq!(anvil::region_select::format(&[0, 2, 15]), "0,2,15");
}

#[test]
fn format_then_parse_gives_the_indices_back() {
    let v = vec![1, 4, 9, 120];
    assert_eq!(parse(&anvil::region_select::format(&v)), Some(v));
    assert_eq!(parse(&anvil::region_select::format(&[])), None);
}

#[test]
fn clicking_twice_restores_the_selection() {
    let d = [true, false, true, false];
    let once = toggle(&d, "1", 3);
    assert_eq!(once, "1,3");
    assert_eq!(toggle(&d, &once, 3), "1");
    // Past the last region an index is dropped by the click.
    assert_eq!(toggle(&d, "1,9", 2), "1,2");
    // Ending on the defaults stores the empty text.
    assert_eq!(toggle(&d, "0", 2), "");
}

#[test]
fn regions_without_defaults_read_as_none_selected() {
    let d = [false, false];
    assert!(!is_selected(&d, "", 0));
    assert!(!is_selected(&d, "", 5));
    assert!(is_selected(&d, "1", 1));
    assert_eq!(toggle(&d, "", 1), "1");
}

#[test]
fn picked_gives_defaults_or_the_listed_regions() {
    let d = [true, false, true];
    assert_eq!(picked(&d, "").unwrap(), vec![0, 2]);
    assert_eq!(picked(&d, "2,1").unwrap(), vec![1, 2]);
    match picked(&d, "x") {
        Err(RegenError::Other(m)) => assert_eq!(m, "no region selected; click a region of the sketch"),
        other => panic!("{other:?}"),
    }
    match picked(&d, "1, 7, 9") {
        Err(RegenError::Other(m)) => {
            assert_eq!(m, "region 7 no longer exists (the sketch has 3 regions); pick the regions again")
        }
        other => panic!("{other:?}"),
    }
}

#[test]
fn union_find_joins_classes() {
    let mut uf: Vec<usize> = (0..6).collect();
    union(&mut uf, 4, 2);
    union(&mut uf, 5, 4);
    union(&mut uf, 1, 0);
    assert_eq!(find(&mut uf, 5), 2);
    assert_eq!(find(&mut uf, 4), 2);
    assert_eq!(find(&mut uf, 1), 0);
    assert_eq!(find(&mut uf, 3), 3);
    union(&mut uf, 5, 1);
    for k in [0, 1, 2, 4, 5] {
        assert_eq!(find(&mut uf, k), 0);
    }
    assert_eq!(find(&mut uf, 3), 3);
}
