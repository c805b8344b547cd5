use anvil::post::{comment, ends_cycle, trim_number, Dialect, GenericGcode};

#[test]
fn every_dialect_has_a_name_and_a_header() {
    let ds = [Dialect::linuxcnc(), Dialect::grbl(), Dialect::fanuc(), Dialect::haas(), GenericGcode::new().dialect()];
    let names: Vec<&str> = ds.iter().map(|d| d.name()).collect();
    assert_eq!(names, vec!["LinuxCNC", "GRBL", "Fanuc", "Haas", "Generic G-code"]);
    for d in &ds {
        assert!(d.header().contains("G21"));
    }
    assert_eq!(GenericGcode::new().name(), "Generic G-code");
}

#[test]
fn headers_follow_the_dialect() {
    assert_eq!(Dialect::linuxcnc().header(), "%\n(Anvil CAM)\nG21 G90 G17 G94\n");
    assert_eq!(Dialect::grbl().header(), "(Anvil CAM)\nG21 G90 G17 G94\n");
    let mut f = Dialect::fanuc();
    f.program_name = "bracket (v2)".into();
    assert_eq!(f.header(), "%\nO0001 (bracket  v2 )\nG21 G90 G17 G94\n");
    assert!(f.header().starts_with("%\nO0001"));
}

#[test]
fn footers_close_cycles_and_programs() {
    assert_eq!(Dialect::linuxcnc().footer_lines(true), "G80\nM2\n%\n");
    assert_eq!(Dialect::grbl().footer_lines(false), "M2\n");
    assert_eq!(Dialect::fanuc().footer_lines(false), "G28 G91 Z0\nG90\nM30\n%\n");
    assert!(Dialect::haas().footer_lines(false).contains("M30"));
}

#[test]
fn tool_changes_follow_the_dialect() {
    assert_eq!(Dialect::linuxcnc().tool_change(3, "6mm endmill", "6"), "T3 M6\nG43 H3\n");
    assert_eq!(
        Dialect::grbl().tool_change(2, "drill", "5.5"),
        "(Change to tool 2: drill, 5.5 mm, then resume)\nM0\n"
    );
}

#[test]
fn comments_and_numbers() {
    assert_eq!(comment(&"rough (pass 1)".to_string()), "(rough  pass 1 )\n");
    assert_eq!(trim_number("1.500"), "1.5");
    assert_eq!(trim_number("2.000"), "2");
    assert_eq!(trim_number("-0.000"), "0");
    assert_eq!(trim_number("-1.250"), "-1.25");
    assert_eq!(trim_number("100.000"), "100");
    assert!(ends_cycle(true, false));
    assert!(!ends_cycle(true, true));
    assert!(!ends_cycle(false, false));
}
