use anvil::fonts::{builtin_names, catalogue, display_name, FontEntry};

fn entry(family: &str, style: &str, source: &str) -> FontEntry {
    FontEntry { family: family.into(), style: style.into(), source: source.into(), builtin: false }
}

#[test]
fn catalogue_starts_with_builtins() {
    let cat = catalogue(vec![entry("Zed", "", "/f/zed.ttf")]);
    assert!(cat.len() >= builtin_names().len());
    assert!(cat[0].builtin);
}

#[test]
fn builtins_read_as_their_names() {
    assert_eq!(display_name("", &[]), "DejaVu Sans");
    assert_eq!(display_name("builtin:DejaVu Serif", &[]), "DejaVu Serif");
    assert_eq!(display_name("  builtin:Archivo Black ", &[]), "Archivo Black");
}

#[test]
fn labels_leave_out_plain_styles() {
    assert_eq!(entry("Arial", "", "a").label(), "Arial");
    assert_eq!(entry("Arial", "Regular", "a").label(), "Arial");
    assert_eq!(entry("Arial", "BOOK", "a").label(), "Arial");
    assert_eq!(entry("Arial", "Bold Italic", "a").label(), "Arial Bold Italic");
}

#[test]
fn installed_fonts_are_sorted_without_repeats() {
    let cat = catalogue(vec![
        entry("zeta", "", "/f/z.ttf"),
        entry("Alpha", "Bold", "/f/ab.ttf"),
        entry("alpha", "", "/f/a.ttf"),
        entry("Alpha", "Bold", "/f/ab2.ttf"),
    ]);
    let n = builtin_names().len();
    assert_eq!(cat.len(), n + 3);
    assert_eq!(cat[0].source, "builtin:DejaVu Sans");
    assert_eq!(cat[n - 1].family, "DejaVu Sans Mono");
    let rest: Vec<&str> = cat[n..].iter().map(|f| f.source.as_str()).collect();
    assert_eq!(rest, vec!["/f/a.ttf", "/f/ab.ttf", "/f/z.ttf"]);
}

#[test]
fn installed_fonts_read_as_their_label_or_file() {
    let cat = catalogue(vec![entry("Gill", "Light", "/f/gill.ttf")]);
    assert_eq!(display_name("/f/gill.ttf", &cat), "Gill Light");
    assert_eq!(display_name("/usr/share/fonts/Other-Font.otf", &cat), "Other-Font");
}

fn rec(id: u16, unicode: bool, text: Option<&str>) -> anvil::fonts::FontName {
    anvil::fonts::FontName { id, unicode, text: text.map(|t| t.to_string()) }
}

#[test]
fn typographic_names_win_over_legacy_ones() {
    let names = vec![
        rec(1, true, Some("Arial")),
        rec(2, true, Some("Bold")),
        rec(16, true, Some("Arial Nova")),
        rec(17, true, Some("Light")),
    ];
    let e = anvil::fonts::entry_from_names(&names, "/f/a.ttf".to_string()).unwrap();
    assert_eq!(e.family, "Arial Nova");
    assert_eq!(e.style, "Light");
    assert_eq!(e.source, "/f/a.ttf");
    assert!(!e.builtin);
}

#[test]
fn blank_and_non_unicode_names_are_passed_over() {
    let names = vec![
        rec(16, true, Some("   ")),
        rec(16, false, Some("Mac Name")),
        rec(1, true, None),
        rec(1, true, Some("Serif Face")),
    ];
    assert_eq!(anvil::fonts::pick_name(&names, &[16, 1]), Some("Serif Face".to_string()));
    let e = anvil::fonts::entry_from_names(&names, "x".to_string()).unwrap();
    assert_eq!(e.style, "");
}

#[test]
fn a_font_without_a_family_is_not_listed() {
    let names = vec![rec(2, true, Some("Bold")), rec(17, true, Some("Bold"))];
    assert_eq!(anvil::fonts::pick_name(&names, &[16, 1]), None);
    assert!(anvil::fonts::entry_from_names(&names, "x".to_string()).is_none());
}

#[test]
fn bytes_that_are_no_font_describe_nothing() {
    assert!(anvil::fonts::describe(b"not a font at all", "x".to_string()).is_none());
    assert!(anvil::fonts::describe(&[], "x".to_string()).is_none());
}

#[test]
fn the_catalogue_is_the_same_for_the_same_fonts() {
    let fonts = || vec![entry("Zed", "", "/f/zed.ttf"), entry("Able", "Bold", "/f/able.ttf")];
    let a = catalogue(fonts());
    let b = catalogue(fonts());
    assert_eq!(a, b);
    assert_eq!(a.len(), builtin_names().len() + 2);
    for (k, name) in builtin_names().iter().enumerate() {
        assert_eq!(a[k], FontEntry { family: name.to_string(), style: String::new(), source: format!("builtin:{name}"), builtin: true });
    }
}
