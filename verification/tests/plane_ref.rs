use anvil::document::Renumber;
use anvil::plane_ref::PlaneRef;

type Ref = PlaneRef<[f64; 3]>;

fn datum(s: &str) -> Ref {
    PlaneRef::Datum(s.to_string())
}

#[test]
fn datum_names_read_in_any_case_and_are_kept_in_capitals() {
    assert_eq!(Ref::parse("xy"), datum("XY"));
    assert_eq!(Ref::parse("  Xz\t"), datum("XZ"));
    assert_eq!(Ref::parse("YZ"), datum("YZ"));
}

#[test]
fn feature_numbers_read_as_features() {
    assert_eq!(Ref::parse("3"), PlaneRef::Feature(3));
    assert_eq!(Ref::parse(" 12 "), PlaneRef::Feature(12));
    assert_eq!(Ref::parse("+4"), PlaneRef::Feature(4));
}

#[test]
fn other_text_reads_as_unset() {
    assert_eq!(Ref::parse(""), PlaneRef::Unset);
    assert_eq!(Ref::parse("XX"), PlaneRef::Unset);
    assert_eq!(Ref::parse("ZY"), PlaneRef::Unset);
    assert_eq!(Ref::parse("face"), PlaneRef::Unset);
    assert_eq!(Ref::parse("-1"), PlaneRef::Unset);
    assert_eq!(Ref::parse("99999999999999999999999"), PlaneRef::Unset);
}

#[test]
fn an_unset_choice_takes_the_saved_feature_number() {
    assert_eq!(Ref::from_saved(PlaneRef::Unset, Some(2)), PlaneRef::Feature(2));
    assert_eq!(Ref::from_saved(PlaneRef::Unset, None), PlaneRef::Unset);
    assert_eq!(Ref::from_saved(datum("XZ"), Some(2)), datum("XZ"));
    assert_eq!(Ref::from_saved(PlaneRef::Feature(1), Some(2)), PlaneRef::Feature(1));
}

#[test]
fn short_text_names_no_feature() {
    let face: Ref = PlaneRef::Face { feature: 3, body: 1, plane: [0.0, 0.0, 1.0] };
    assert_eq!(Ref::Unset.short(), "?");
    assert_eq!(datum("XY").short(), "XY");
    assert_eq!(Ref::Feature(17).short(), "17");
    assert_eq!(face.short(), "face of 3");
}

#[test]
fn features_and_faces_depend_on_their_feature() {
    let face: Ref = PlaneRef::Face { feature: 5, body: 0, plane: [1.0, 2.0, 3.0] };
    assert_eq!(face.depends_on(), Some(5));
    assert_eq!(Ref::Feature(2).depends_on(), Some(2));
    assert_eq!(datum("XY").depends_on(), None);
    assert_eq!(Ref::Unset.depends_on(), None);
}

#[test]
fn references_follow_the_history_and_break_with_their_feature() {
    let face: Ref = PlaneRef::Face { feature: 5, body: 2, plane: [1.0, 2.0, 3.0] };
    assert_eq!(
        face.remapped(&Renumber::Remove(2)),
        Some(PlaneRef::Face { feature: 4, body: 2, plane: [1.0, 2.0, 3.0] })
    );
    assert_eq!(face.remapped(&Renumber::Remove(5)), None);
    assert_eq!(Ref::Feature(0).remapped(&Renumber::Insert(0)), Some(PlaneRef::Feature(1)));
    assert_eq!(Ref::Feature(1).remapped(&Renumber::Move(1, 3)), Some(PlaneRef::Feature(3)));
    assert_eq!(datum("YZ").remapped(&Renumber::Remove(0)), Some(datum("YZ")));
    assert_eq!(Ref::Unset.remapped(&Renumber::Remove(0)), Some(PlaneRef::Unset));
}

#[test]
fn a_short_reference_reads_back_as_itself() {
    for r in [datum("XY"), datum("XZ"), datum("YZ"), Ref::Feature(0), Ref::Feature(40)] {
        assert_eq!(Ref::parse(&r.short()), r);
    }
}

fn from_saved_text(json: &str) -> Ref {
    let text: String = serde_json::from_str(json).unwrap();
    Ref::parse(&text)
}

#[test]
fn old_text_reads_as_a_datum_or_a_feature() {
    let a = from_saved_text("\"XY\"");
    let b = from_saved_text("\"3\"");
    let c = from_saved_text("\"None\"");
    assert_eq!(a, PlaneRef::Datum("XY".into()));
    assert_eq!(b, PlaneRef::Feature(3));
    assert_eq!(c, PlaneRef::Unset);
}

#[test]
fn a_label_names_the_feature_it_refers_to() {
    let names = vec!["Sketch 0".to_string(), "Extrude".to_string()];
    assert_eq!(datum("XY").label(&names), "XY");
    assert_eq!(Ref::Unset.label(&names), "(none)");
    assert_eq!(Ref::Feature(1).label(&names), "1: Extrude");
    assert_eq!(Ref::Feature(7).label(&names), "7: (missing)");
    let top: Ref = PlaneRef::Face { feature: 1, body: 0, plane: [0.0, 0.0, 12.0] };
    assert_eq!(top.label(&names), "Face of 1: Extrude");
    let second: Ref = PlaneRef::Face { feature: 1, body: 1, plane: [0.0, 0.0, 12.0] };
    assert_eq!(second.label(&names), "Face of 1: Extrude, body 2");
    assert!(top.label(&names).to_lowercase().contains("face"));
}
