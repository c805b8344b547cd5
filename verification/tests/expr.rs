use anvil::expr::{parse, ExprError, ExprTable};

#[test]
fn detects_cycles() {
    let mut t = ExprTable::new();
    t.set("a", "b + 1").unwrap();
    t.set("b", "a + 1").unwrap();
    assert!(matches!(t.evaluation_order(), Err(ExprError::Cycle(_))));
}

#[test]
fn orders_by_dependency() {
    let mut t = ExprTable::new();
    t.set("height", "width / 2 + 5").unwrap();
    t.set("width", "40").unwrap();
    assert_eq!(t.evaluation_order().unwrap(), vec!["width".to_string(), "height".to_string()]);
}

#[test]
fn a_missing_name_is_reported() {
    let mut t = ExprTable::new();
    t.set("a", "b * 2").unwrap();
    match t.evaluation_order() {
        Err(ExprError::UnknownName(n)) => assert_eq!(n, "b"),
        other => panic!("{other:?}"),
    }
}

#[test]
fn a_bad_source_is_refused_and_not_stored() {
    let mut t = ExprTable::new();
    let e = t.set("a", "1 +").unwrap_err();
    assert!(matches!(e, ExprError::Parse { .. }));
    assert!(t.get("a").is_none());
    assert!(t.params().is_empty());
}

#[test]
fn set_replaces_and_remove_drops() {
    let mut t = ExprTable::new();
    t.set("w", "10").unwrap();
    t.set("w", "20").unwrap();
    assert_eq!(t.get("w").unwrap().source, "20");
    assert_eq!(t.params().len(), 1);
    t.remove("w");
    assert!(t.get("w").is_none());
}

#[test]
fn parser_accepts_functions_and_precedence() {
    assert!(parse("2 + 3 * 4 ^ 2").is_ok());
    assert!(parse("sin(30)").is_ok());
    assert!(parse("-(1 + 2) * max(3, 4)").is_ok());
    assert!(parse("(1 + 2").is_err());
    assert!(parse("").is_err());
}

#[test]
fn names_lists_the_names_used() {
    let a = parse("width / 2 + max(height, 3)").unwrap();
    let mut out = Vec::new();
    a.names(&mut out);
    assert_eq!(out, vec!["width".to_string(), "height".to_string()]);
}

#[test]
fn expr_errors_read_as_messages() {
    assert_eq!(ExprError::DivZero.message(), "division by zero");
    assert_eq!(ExprError::Cycle("a".into()).message(), "cycle through 'a'");
    assert_eq!(ExprError::UnknownName("q".into()).message(), "unknown name 'q'");
    assert_eq!(ExprError::UnknownFunction("f".into()).message(), "unknown function 'f'");
    assert_eq!(ExprError::Parse { pos: 3, msg: "expected ')'".into() }.message(), "parse error at 3: expected ')'");
}

#[test]
fn the_order_walks_the_names_depth_first() {
    let mut t = anvil::expr::ExprTable::new();
    t.set("a", "b + c").unwrap();
    t.set("b", "d * 2").unwrap();
    t.set("c", "d + b").unwrap();
    t.set("d", "1").unwrap();
    t.set("e", "7").unwrap();
    assert_eq!(t.evaluation_order().unwrap(), vec!["d", "b", "c", "a", "e"]);
}

#[test]
fn the_first_fault_met_on_the_walk_is_reported() {
    let mut t = anvil::expr::ExprTable::new();
    t.set("a", "zz + b").unwrap();
    t.set("b", "b").unwrap();
    assert!(matches!(t.evaluation_order(), Err(anvil::expr::ExprError::UnknownName(n)) if n == "zz"));
    let mut t = anvil::expr::ExprTable::new();
    t.set("a", "b + zz").unwrap();
    t.set("b", "a").unwrap();
    assert!(matches!(t.evaluation_order(), Err(anvil::expr::ExprError::Cycle(n)) if n == "a"));
}
