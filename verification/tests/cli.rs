use anvil::cli::{format_of, parse_card, parse_kettle, parse_lattice, parse_run, ExportFormat};
use anvil::text::float_ok;

fn s(v: &[&str]) -> Vec<String> {
    v.iter().map(|x| x.to_string()).collect()
}

#[test]
fn parses_card_options() {
    let a = parse_card(&s(&["--name", "Your Name", "--url", "https://example.com", "--out", "/out"])).unwrap();
    assert_eq!(a.name, "Your Name");
    assert_eq!(a.out, "/out");
    assert!(parse_card(&s(&["--name", "X"])).unwrap_err().contains("--url"));
    assert!(parse_card(&s(&["--name"])).unwrap_err().contains("needs a value"));
    assert!(parse_card(&s(&["--bogus", "1"])).unwrap_err().contains("unknown option"));
}

#[test]
fn card_defaults_and_messages() {
    let a = parse_card(&s(&["--url", "u", "--name", "n", "--font", "Archivo Black", "--name", "m"])).unwrap();
    assert_eq!((a.name.as_str(), a.url.as_str(), a.out.as_str()), ("m", "u", "."));
    assert_eq!(a.font.as_deref(), Some("Archivo Black"));
    assert_eq!(parse_card(&s(&[])).unwrap_err(), "missing --name");
    assert_eq!(parse_card(&s(&["--name", "X"])).unwrap_err(), "missing --url");
    assert_eq!(parse_card(&s(&["--name"])).unwrap_err(), "--name needs a value");
    assert_eq!(parse_card(&s(&["--bogus", "1"])).unwrap_err(), "unknown option --bogus");
}

#[test]
fn parses_kettle_options() {
    let a = parse_kettle(&["--variant".into(), "gated".into(), "--out".into(), "o".into()]).unwrap();
    assert_eq!((a.variant.as_str(), a.out.as_str()), ("gated", "o"));
    assert!(parse_kettle(&["--variant".into(), "cup".into()]).is_err());
}

#[test]
fn kettle_defaults_and_messages() {
    let a = parse_kettle(&[]).unwrap();
    assert_eq!((a.variant.as_str(), a.out.as_str()), ("plain", "."));
    assert_eq!(parse_kettle(&s(&["--variant", "cup"])).unwrap_err(), "unknown variant cup; use plain, gated, or mold");
    assert_eq!(parse_kettle(&s(&["--out"])).unwrap_err(), "--out needs a value");
    assert_eq!(parse_kettle(&s(&["mold"])).unwrap_err(), "unknown option mold");
}

#[test]
fn parses_lattice_options() {
    let a = parse_lattice(&s(&["--stl", "p.stl", "--kind", "octet", "--grade", "z", "--wall-end", "2"])).unwrap();
    assert_eq!(a.kind, "octet");
    assert_eq!(a.grade, "z");
    assert_eq!(a.wall_end, "2");
    assert!(parse_lattice(&s(&["--kind", "octet"])).is_err(), "stl is required");
}

#[test]
fn lattice_defaults_and_messages() {
    let a = parse_lattice(&s(&["--stl", "in.stl"])).unwrap();
    assert_eq!(
        [a.stl, a.kind, a.cell, a.wall, a.wall_end, a.grade, a.conform, a.skin, a.res, a.out],
        ["in.stl", "gyroid", "8", "1.2", "0", "none", "none", "1.2", "0.4", "."].map(String::from)
    );
    assert_eq!(parse_lattice(&s(&["--kind", "octet"])).unwrap_err(), "--stl is required");
    assert_eq!(parse_lattice(&s(&["--stl"])).unwrap_err(), "--stl needs a value");
    assert_eq!(parse_lattice(&s(&["--cells", "3"])).unwrap_err(), "unknown option --cells");
}

#[test]
fn parses_run_options() {
    let a = parse_run(&s(&["part.anvil", "--set", "span=200", "--set", "sweep = 5", "--formats", "stl,step", "--out", "o"]))
        .unwrap();
    assert_eq!(a.doc, "part.anvil");
    assert_eq!(a.sets, vec![("span".to_string(), "200".to_string()), ("sweep".to_string(), "5".to_string())]);
    assert_eq!(a.formats, vec!["stl".to_string(), "step".to_string()]);
    assert!(parse_run(&s(&["--set", "a=1"])).is_err(), "document is required");
    assert!(parse_run(&s(&["p.anvil", "--set", "novalue"])).is_err());
}

#[test]
fn run_numbers_and_messages() {
    let a = parse_run(&s(&["d.anvil", "--openfoam", "--speed", "12.5", "--alpha", "-2", "--cref", "1e-1"])).unwrap();
    assert!(a.openfoam);
    assert_eq!((a.speed.as_str(), a.alpha.as_str()), ("12.5", "-2"));
    assert_eq!(a.cref.as_deref(), Some("1e-1"));
    assert_eq!(a.sref, None);
    assert_eq!(a.formats, vec!["3mf-group".to_string(), "stl-parts".to_string()]);
    assert_eq!(a.out, ".");
    assert_eq!(parse_run(&s(&["d.anvil", "--speed", "fast"])).unwrap_err(), "--speed: invalid float literal");
    assert_eq!(parse_run(&s(&["d.anvil", "--alpha", ""])).unwrap_err(), "--alpha: cannot parse float from empty string");
    assert_eq!(parse_run(&s(&["d.anvil", "--set", "w"])).unwrap_err(), "--set wants name=value, got w");
    assert_eq!(parse_run(&s(&["d.anvil", "--zoom"])).unwrap_err(), "unknown option --zoom");
    assert_eq!(parse_run(&s(&["d.anvil", "--out"])).unwrap_err(), "--out needs a value");
    assert_eq!(parse_run(&s(&[])).unwrap_err(), "give the .anvil document to run");
    let b = parse_run(&s(&["d.anvil", "--formats", " STL, ,3MF ", "--inputs", "in.json"])).unwrap();
    assert_eq!(b.formats, vec!["stl".to_string(), "3mf".to_string()]);
    assert_eq!(b.inputs.as_deref(), Some("in.json"));
}

#[test]
fn float_text_follows_the_std_grammar() {
    for ok in ["1", "-1.5", "+.5", "5.", "1e5", "2.5E-3", "inf", "-Infinity", "NaN", "007"] {
        assert!(float_ok(ok), "{ok}");
        assert!(ok.parse::<f64>().is_ok(), "{ok}");
    }
    for bad in ["", ".", "e5", "1e", "1.2.3", "--1", " 1", "1 ", "infinit", "0x10", "1_000"] {
        assert!(!float_ok(bad), "{bad}");
        assert!(bad.parse::<f64>().is_err(), "{bad}");
    }
}

#[test]
fn parses_aircraft_options() {
    let s = |v: &[&str]| v.iter().map(|x| x.to_string()).collect::<Vec<String>>();
    assert_eq!(anvil::cli::parse_aircraft(&s(&[])), Ok(".".to_string()));
    assert_eq!(anvil::cli::parse_aircraft(&s(&["--out", "planes"])), Ok("planes".to_string()));
    assert_eq!(anvil::cli::parse_aircraft(&s(&["--out"])), Err("--out needs a value".to_string()));
    assert_eq!(anvil::cli::parse_aircraft(&s(&["--wing"])), Err("unknown option --wing".to_string()));
}

#[test]
fn export_formats_are_known_by_name() {
    assert_eq!(format_of("3mf"), Ok(ExportFormat::ThreeMf));
    assert_eq!(format_of("3mf-group"), Ok(ExportFormat::ThreeMfGroup));
    assert_eq!(format_of("stl-parts"), Ok(ExportFormat::StlParts));
    assert_eq!(format_of("step"), Ok(ExportFormat::Step));
    assert_eq!(format_of("stp"), Ok(ExportFormat::Step));
    assert_eq!(format_of("gltf"), Ok(ExportFormat::Gltf));
    assert_eq!(format_of("STL"), Err("unknown format STL".to_string()));
    assert_eq!(format_of("dxf"), Err("unknown format dxf".to_string()));
}
