use anvil::step::{parse, Place, StepError, Tok, Value};

fn wrap(data: &str) -> String {
    format!(
        "ISO-10303-21;\nHEADER;\nFILE_DESCRIPTION(('t'),'2;1');\nENDSEC;\nDATA;\n{data}\nENDSEC;\nEND-ISO-10303-21;\n"
    )
}

fn message(r: Result<std::collections::HashMap<u64, anvil::step::Entity>, StepError>) -> String {
    match r {
        Err(StepError::Text(m)) => m,
        other => panic!("expected a message, got {other:?}"),
    }
}

#[test]
fn strings_may_hold_commas_quotes_and_line_breaks() {
    let t = wrap("#1=PRODUCT('a, ''b''\nc','x',(),$);");
    let e = parse(&t).unwrap();
    assert_eq!(e[&1].parts[0].1[0], Value::Str("a, 'b'\nc".into()));
}

#[test]
fn complex_entities_and_real_forms_parse() {
    let t = wrap(
        "#9=( LENGTH_UNIT() NAMED_UNIT(*) SI_UNIT(.MILLI.,.METRE.) );\n#2=CARTESIAN_POINT('',(1.,-2.5E1,3.E-01));",
    );
    let e = parse(&t).unwrap();
    assert!(e[&9].has("SI_UNIT"));
    let nums: Vec<f64> = e[&2].parts[0].1[1]
        .as_list()
        .iter()
        .filter_map(|v| match v {
            Value::Num(s) => s.parse::<f64>().ok(),
            _ => None,
        })
        .collect();
    assert_eq!(nums, vec![1.0, -25.0, 0.3]);
}

#[test]
fn a_truncated_file_is_an_error() {
    let t = wrap("#1=CARTESIAN_POINT('',(0.,0.,0.));");
    let cut = &t[..t.find("0.,0.").unwrap()];
    assert!(parse(cut).is_err());
    assert!(parse("ISO-10303-21;\nHEADER;\nENDSEC;\n").is_err(), "no DATA and no end");
}

#[test]
fn reals_are_kept_as_readable_text() {
    let e = parse(&wrap("#2=CARTESIAN_POINT('',(1.,-2.5E1,3.E-01,7));")).unwrap();
    let l = e[&2].parts[0].1[1].as_list();
    assert_eq!(l[0], Value::Num("1.0".into()));
    assert_eq!(l[1], Value::Num("-2.5E1".into()));
    assert_eq!(l[2], Value::Num("3.0E-01".into()));
    assert_eq!(l[3], Value::Num("7".into()));
}

#[test]
fn a_simple_entity_has_one_named_part() {
    let e = parse(&wrap("#5=oriented_edge('',*,*,#4,.T.);")).unwrap();
    let ent = &e[&5];
    assert_eq!(ent.name(), "ORIENTED_EDGE");
    let v = ent.part("ORIENTED_EDGE").unwrap();
    assert_eq!(v.len(), 5);
    assert_eq!(v[1], Value::Unset);
    assert_eq!(v[3].as_ref_id(), Some(4));
    assert_eq!(v[4].as_bool(), Some(true));
    assert_eq!(v[0].as_bool(), None);
    assert!(ent.part("EDGE").is_none());
}

#[test]
fn a_complex_entity_is_named_as_such() {
    let e = parse(&wrap("#9=( LENGTH_UNIT() NAMED_UNIT(*) SI_UNIT(.MILLI.,.METRE.) );")).unwrap();
    let ent = &e[&9];
    assert_eq!(ent.name(), "complex entity");
    assert_eq!(ent.parts.len(), 3);
    let si = ent.part("SI_UNIT").unwrap();
    assert_eq!(si[0], Value::Enum("MILLI".into()));
    assert_eq!(si[1], Value::Enum("METRE".into()));
    assert!(!ent.has("PLANE"));
}

#[test]
fn refs_picks_the_entity_numbers_of_a_list() {
    let e = parse(&wrap("#3=EDGE_LOOP('',(#10,#11,$,#12));")).unwrap();
    let l = &e[&3].parts[0].1[1];
    assert_eq!(l.refs(), vec![10, 11, 12]);
    assert_eq!(Value::Ref(4).refs(), Vec::<u64>::new());
}

#[test]
fn typed_values_and_nested_lists_parse() {
    let e = parse(&wrap("#2=LENGTH_MEASURE_WITH_UNIT(LENGTH_MEASURE(25.4),#1);\n#6=B(((1,2),(3)));")).unwrap();
    assert_eq!(
        e[&2].parts[0].1[0],
        Value::Typed("LENGTH_MEASURE".into(), vec![Value::Num("25.4".into())])
    );
    assert_eq!(
        e[&6].parts[0].1[0],
        Value::List(vec![
            Value::List(vec![Value::Num("1".into()), Value::Num("2".into())]),
            Value::List(vec![Value::Num("3".into())]),
        ])
    );
}

#[test]
fn a_later_entity_with_the_same_number_replaces_the_earlier() {
    let e = parse(&wrap("#1=A(1);\n#1=B(2);")).unwrap();
    assert_eq!(e.len(), 1);
    assert_eq!(e[&1].name(), "B");
}

#[test]
fn comments_and_a_data_name_are_skipped() {
    let t = "ISO-10303-21; /* a note */\nDATA(('x'));\n/* one more */ #1=A(); ENDSEC;\nEND-ISO-10303-21; trailing words";
    let e = parse(t).unwrap();
    assert_eq!(e[&1].parts[0].1.len(), 0);
}

#[test]
fn a_file_must_start_with_the_standard_name() {
    let m = message(parse("HEADER;"));
    assert_eq!(m, "not a STEP file: it does not start with ISO-10303-21");
    let m = message(parse(""));
    assert_eq!(m, "not a STEP file: it does not start with ISO-10303-21");
}

#[test]
fn a_file_without_data_is_an_error() {
    let m = message(parse("ISO-10303-21;\nHEADER;\nENDSEC;\nEND-ISO-10303-21;"));
    assert_eq!(m, "the STEP file has no DATA section");
}

#[test]
fn an_unclosed_comment_is_an_error() {
    let m = message(parse("ISO-10303-21; /* open"));
    assert_eq!(m, "a comment is not closed");
}

#[test]
fn lexer_errors_say_where() {
    assert_eq!(message(parse(&wrap("#=A();"))), "a '#' without a number at byte 67");
    assert_eq!(
        message(parse(&wrap("#99999999999999999999=A();"))),
        "entity number too large at byte 67"
    );
    assert_eq!(message(parse(&wrap("#1=A(.X);"))), "a bad enumeration at byte 72");
    assert_eq!(message(parse(&wrap("#1=A(1e);"))), "a bad number '1e' at byte 72");
    assert_eq!(message(parse(&wrap("#1=A(?);"))), "an unexpected character '?' at byte 72");
    assert_eq!(message(parse(&wrap("#1=A('x);"))), "a string is not closed");
    assert_eq!(message(parse(&wrap("#1=A(\"0F);"))), "a binary value is not closed");
}

#[test]
fn a_missing_token_is_named() {
    match parse("ISO-10303-21 DATA") {
        Err(StepError::Expected(want, got)) => {
            assert_eq!(want, Tok::Semi);
            assert_eq!(got, Tok::Ident("DATA".into()));
        }
        other => panic!("{other:?}"),
    }
}

#[test]
fn a_token_out_of_place_is_named_with_its_place() {
    match parse(&wrap("#1=A(1 2);")) {
        Err(StepError::Unexpected(t, Place::ListEnd)) => assert_eq!(t, Tok::Num("2".into())),
        other => panic!("{other:?}"),
    }
    match parse(&wrap("#1=(A() 3);")) {
        Err(StepError::Unexpected(t, Place::Complex(1))) => assert_eq!(t, Tok::Num("3".into())),
        other => panic!("{other:?}"),
    }
    match parse(&wrap("#1=3;")) {
        Err(StepError::Unexpected(t, Place::AfterEq(1))) => assert_eq!(t, Tok::Num("3".into())),
        other => panic!("{other:?}"),
    }
    match parse(&wrap("A();")) {
        Err(StepError::Unexpected(t, Place::EntityStart)) => assert_eq!(t, Tok::Ident("A".into())),
        other => panic!("{other:?}"),
    }
    match parse("ISO-10303-21; FOO;") {
        Err(StepError::Unexpected(t, Place::BetweenSections)) => assert_eq!(t, Tok::Ident("FOO".into())),
        other => panic!("{other:?}"),
    }
    match parse("ISO-10303-21; HEADER; 5") {
        Err(StepError::Unexpected(t, Place::Header)) => assert_eq!(t, Tok::Num("5".into())),
        other => panic!("{other:?}"),
    }
    match parse(&wrap("#1=A(;);")) {
        Err(StepError::Unexpected(t, Place::Params)) => assert_eq!(t, Tok::Semi),
        other => panic!("{other:?}"),
    }
}

#[test]
fn an_empty_complex_entity_is_an_error() {
    assert_eq!(message(parse(&wrap("#7=();"))), "complex entity #7 is empty");
}

#[test]
fn lists_may_not_nest_without_end() {
    let deep = format!("#1=A({}{});", "(".repeat(64), ")".repeat(64));
    assert_eq!(message(parse(&wrap(&deep))), "lists nest too deeply");
    let ok = format!("#1=A({}{});", "(".repeat(62), ")".repeat(62));
    assert!(parse(&wrap(&ok)).is_ok());
}

#[test]
fn the_file_may_not_end_inside_an_entity() {
    assert_eq!(
        message(parse("ISO-10303-21; DATA; #1=A(1,")),
        "the file ends in the middle of an entity"
    );
}

#[test]
fn errors_read_as_messages() {
    let m = |t: &str| parse(t).err().unwrap().message();
    assert_eq!(m("ISO-10303-21 DATA"), "expected Semi, found Ident(\"DATA\")");
    assert_eq!(m("HEADER;"), "not a STEP file: it does not start with ISO-10303-21");
    assert_eq!(m(&wrap("#1=A(1 2);")), "expected ',' or ')', found Num(2)");
    assert_eq!(m(&wrap("#1=A(;);")), "unexpected Semi in a parameter list");
    assert_eq!(m(&wrap("#1=A('x' 'y');")), "expected ',' or ')', found Str(\"y\")");
    assert_eq!(m(&wrap("A(1);")), "expected an entity, found Ident(\"A\")");
    assert_eq!(m(&wrap("#1=(A() ,);")), "unexpected Comma in complex entity #1");
    assert_eq!(m(&wrap("#1=();")), "complex entity #1 is empty");
    assert_eq!(m(&wrap("#7=.X.;")), "unexpected Enum(\"X\") after #7=");
    assert_eq!(m("ISO-10303-21;\n#1=A();"), "unexpected Hash(1) between sections");
    assert_eq!(m("ISO-10303-21;\nHEADER;\n$;"), "unexpected Unset in the header");
    assert_eq!(m(&wrap("#1=A(#2 #3);")), "expected ',' or ')', found Hash(3)");
}
