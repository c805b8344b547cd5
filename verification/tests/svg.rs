use anvil::svg::{number_texts, path_commands};

fn texts(v: &[&str]) -> Vec<String> {
    v.iter().map(|s| s.to_string()).collect()
}

#[test]
fn numbers_are_read_between_separators() {
    assert_eq!(number_texts("10,20 -3.5"), texts(&["10", "20", "-3.5"]));
    assert_eq!(number_texts("-5.5.5e3"), texts(&["-5.5", ".5e3"]));
    assert_eq!(number_texts("1e-2 2E+3"), texts(&["1e-2", "2E+3"]));
    assert_eq!(number_texts("1e"), texts(&["1"]));
    assert_eq!(number_texts("1e- 7"), texts(&["7"]));
    assert_eq!(number_texts("+ - ."), texts(&[]));
    assert_eq!(number_texts("12px"), texts(&["12"]));
}

#[test]
fn path_data_splits_into_commands() {
    let c = path_commands("M 0 0 L 10 0 10 10 z");
    assert_eq!(
        c,
        vec![('M', texts(&["0", "0"])), ('L', texts(&["10", "0", "10", "10"])), ('z', texts(&[]))]
    );
    let c = path_commands("  3 4 m1e2,2h-5");
    assert_eq!(c, vec![('m', texts(&["1e2", "2"])), ('h', texts(&["-5"]))]);
    assert!(path_commands("").is_empty());
}
