use anvil::features::aircraft::{tag_name, AircraftFeature, TAG_FIN, TAG_FUSELAGE, TAG_TAIL, TAG_WING};
use anvil::features::casting::{alloy_names, CastingCheckFeature, SprueFeature};
use anvil::features::extrude::ExtrudeFeature;
use anvil::features::hot_spots::{
    entry_cells, fill, grid_cells, metal_voxels, neighbours, unreached_regions, Dims, HotSpotsFeature, MIN_POCKET,
};
use anvil::features::lattice::LatticeFillFeature;
use anvil::features::loft::LoftFeature;
use anvil::features::primitives::{BoxFeature, CylinderFeature};
use anvil::features::sweep::SweepFeature;
use anvil::features::transform::{consumed, CircPatternFeature, MoveFeature};
use anvil::features::{body_types, parse_index_list};
use anvil::param::{ParamKind, ParamValue};

#[test]
fn index_lists_skip_what_is_no_index() {
    assert_eq!(parse_index_list("0, 2, 5"), vec![0, 2, 5]);
    assert_eq!(parse_index_list("3\t1,,x 4"), vec![3, 1, 4]);
    assert_eq!(parse_index_list(""), Vec::<usize>::new());
}

#[test]
fn tags_name_the_parts() {
    assert_eq!(tag_name(TAG_FUSELAGE), "fuselage");
    assert_eq!(tag_name(TAG_WING), "wing");
    assert_eq!(tag_name(TAG_TAIL), "tail");
    assert_eq!(tag_name(TAG_FIN), "fin");
    assert_eq!(tag_name(99), "body");
}

#[test]
fn names_follow_the_parameters() {
    assert_eq!(ExtrudeFeature::default().name(), "Extrude (10)");
    let mut e = ExtrudeFeature::default();
    e.set_param("operation", ParamValue::Choice("cut".into())).unwrap();
    assert_eq!(e.name(), "Extrude cut (10)");
    assert_eq!(BoxFeature::default().name(), "Box (20 x 20 x 10)");
    assert_eq!(MoveFeature::default().name(), "Move body 1");
    let mut m = MoveFeature::default();
    m.set_param("copy", ParamValue::Bool(true)).unwrap();
    assert_eq!(m.name(), "Copy body 1");
    assert_eq!(SweepFeature::default().name(), "Sweep (profile 0, path 1)");
    assert_eq!(AircraftFeature::default().name(), "Aircraft (span 180, NACA 2412)");
    assert_eq!(LoftFeature::default().name(), "Loft (0, 1)");
}

#[test]
fn set_param_checks_name_and_kind() {
    let mut b = BoxFeature::default();
    assert!(b.set_param("width", ParamValue::Expr("w * 2".into())).is_ok());
    assert_eq!(b.width, "w * 2");
    assert_eq!(b.set_param("width", ParamValue::Bool(true)).unwrap_err(), "unknown parameter width");
    assert_eq!(b.set_param("colour", ParamValue::Expr("red".into())).unwrap_err(), "unknown parameter colour");
    assert_eq!(b.width, "w * 2");
    let mut s = SprueFeature::default();
    assert_eq!(s.set_param("x", ParamValue::Bool(true)).unwrap_err(), "expected an expression");
    assert_eq!(s.set_param("nope", ParamValue::Expr("1".into())).unwrap_err(), "unknown parameter nope");
    s.set_param("sprue_height", ParamValue::Expr("90".into())).unwrap();
    assert_eq!(s.name(), "Sprue (h=90)");
}

#[test]
fn params_list_what_an_editor_shows() {
    let p = ExtrudeFeature::default().params();
    assert_eq!(p.len(), 4);
    assert_eq!(p[0].name, "sketch");
    assert_eq!(p[0].kind, ParamKind::FeatureRef { accepts: vec!["sketch"] });
    assert_eq!(p[1].value, ParamValue::Expr("10".into()));
    let mut e = ExtrudeFeature::default();
    e.operation = "join".into();
    let p = e.params();
    assert_eq!(p.len(), 5);
    assert_eq!(p[4].name, "target");
    assert_eq!(p[4].kind, ParamKind::FeatureRef { accepts: body_types() });
    let c = CylinderFeature::default().params();
    assert_eq!(c[0].kind, ParamKind::Choice { options: vec!["XY", "XZ", "YZ"] });
    assert_eq!(c[0].value, ParamValue::Choice("XY".into()));
}

#[test]
fn casting_check_shows_sprue_and_riser_when_asked() {
    let mut c = CastingCheckFeature::default();
    assert_eq!(c.params().len(), 7);
    c.set_param("has_riser", ParamValue::Bool(true)).unwrap();
    let p = c.params();
    assert_eq!(p.len(), 8);
    assert_eq!(p[7].name, "riser");
    c.set_param("has_sprue", ParamValue::Bool(true)).unwrap();
    let p = c.params();
    assert_eq!(p.len(), 10);
    assert_eq!(p[6].name, "sprue");
    assert_eq!(p[7].name, "choke_diameter");
    assert_eq!(p[8].name, "has_riser");
    assert_eq!(p[9].name, "riser");
    assert_eq!(p[1].kind, ParamKind::Choice { options: alloy_names() });
}

#[test]
fn lattice_defaults() {
    let l = LatticeFillFeature::default();
    assert_eq!(l.kind(), "lattice_fill");
    assert_eq!((l.body, l.lattice.as_str(), l.grade.as_str()), (1, "gyroid", "none"));
    assert_eq!(l.params().len(), 14);
}

#[test]
fn copies_consume_nothing() {
    assert_eq!(consumed(true, 4), Vec::<usize>::new());
    assert_eq!(consumed(false, 4), vec![4]);
}

#[test]
fn loft_sections_follow_a_removed_feature() {
    let mut l = LoftFeature { sections: "2,4, 7".into() };
    let broken = l.remap_refs(&anvil::document::Renumber::Remove(4));
    assert_eq!(l.sections, "2, 6");
    assert_eq!(broken, vec!["sections"]);
    let mut l = LoftFeature { sections: "0, 1".into() };
    let broken = l.remap_refs(&anvil::document::Renumber::Insert(1));
    assert_eq!(l.sections, "0, 2");
    assert!(broken.is_empty());
}

#[test]
fn hot_spot_lists_follow_a_renumbering() {
    let mut h = HotSpotsFeature {
        metal: "1, 3,5".into(),
        casting: "3".into(),
        risers: "5".into(),
        pour_at: String::new(),
        ..HotSpotsFeature::default()
    };
    let broken = h.remap_refs(&anvil::document::Renumber::Remove(3));
    assert_eq!(h.metal, "1, 4");
    assert_eq!(h.casting, "");
    assert_eq!(h.risers, "4");
    assert_eq!(h.pour_at, "");
    assert_eq!(broken, vec!["metal", "casting"]);
    // A list the change does not touch keeps its text as written.
    let mut h = HotSpotsFeature { metal: "0,1".into(), ..HotSpotsFeature::default() };
    let broken = h.remap_refs(&anvil::document::Renumber::Move(5, 3));
    assert_eq!(h.metal, "0,1");
    assert!(broken.is_empty());
}

#[test]
fn neighbours_are_the_six_touching_cells() {
    let d = Dims { nx: 2, ny: 3, nz: 4 };
    // Column 1, row 1, layer 2.
    let q = (1 * 3 + 1) * 4 + 2;
    assert_eq!(neighbours(q, d), [q - 12, usize::MAX, q - 4, q + 4, q - 1, q + 1]);
    assert_eq!(neighbours(0, d), [usize::MAX, 12, usize::MAX, 4, usize::MAX, 1]);
}

#[test]
fn metal_fills_from_the_top_layer_through_touching_cells() {
    // One column of five cells with a gap at layer 1.
    let d = Dims { nx: 1, ny: 1, nz: 5 };
    let inside = [true, false, true, true, true];
    let entry = entry_cells(&inside, None, d);
    assert_eq!(entry, vec![4]);
    let reached = fill(&inside, d, &entry);
    assert_eq!(reached, vec![false, false, true, true, true]);
    assert_eq!(unreached_regions(&inside, &reached, d), (0, 1));
    assert_eq!(metal_voxels(&inside), 4);
}

#[test]
fn a_pour_body_pours_at_its_two_top_layers() {
    let d = Dims { nx: 2, ny: 1, nz: 4 };
    let inside = [true; 8];
    // The pour body covers column 0, layers 0 to 2.
    let pour = [true, true, true, false, false, false, false, false];
    assert_eq!(entry_cells(&inside, Some(&pour), d), vec![1, 2]);
    let none = [false; 8];
    assert_eq!(entry_cells(&inside, Some(&none), d), Vec::<usize>::new());
}

#[test]
fn unreached_regions_are_sorted_by_size() {
    // A column of 60 cells cut at layer 25: the 25 cells below stay empty.
    let d = Dims { nx: 1, ny: 1, nz: 60 };
    let mut inside = vec![true; 60];
    inside[25] = false;
    let entry = entry_cells(&inside, None, d);
    assert_eq!(entry, vec![59]);
    let reached = fill(&inside, d, &entry);
    assert_eq!(reached.iter().filter(|&&r| r).count(), 34);
    assert_eq!(unreached_regions(&inside, &reached, d), (25, 0));
    assert!(25 >= MIN_POCKET);
    // Cut once more at layer 3: three cells stay a speck.
    inside[3] = false;
    let reached = fill(&inside, d, &entry);
    assert_eq!(unreached_regions(&inside, &reached, d), (21, 3));
}

#[test]
fn a_grid_may_hold_forty_million_voxels() {
    assert_eq!(grid_cells(Dims { nx: 400, ny: 100, nz: 1000 }), Ok(40_000_000));
    assert_eq!(
        grid_cells(Dims { nx: 401, ny: 100, nz: 1000 }),
        Err("40100000 voxels is too many; use a larger voxel size".to_string())
    );
}

#[test]
fn a_sketch_names_its_plane() {
    let s = anvil::features::sketch::PlaneSource::default();
    assert_eq!(s.sketch_name(), "Sketch (XY)");
    assert_eq!(anvil::features::sketch::PlaneSource::Feature(3).sketch_name(), "Sketch (plane of 3)");
    assert_eq!(anvil::features::sketch::PlaneSource::Custom.label(), "face");
}

#[test]
fn a_sketch_plane_is_chosen_by_parameter() {
    let mut s = anvil::features::sketch::PlaneSource::default();
    assert_eq!(s.params().len(), 1);
    s.set_param("plane", ParamValue::Choice("Feature".into())).unwrap();
    assert_eq!(s, anvil::features::sketch::PlaneSource::Feature(0));
    assert_eq!(s.params().len(), 2);
    s.set_param("plane_feature", ParamValue::FeatureRef(4)).unwrap();
    assert_eq!(s, anvil::features::sketch::PlaneSource::Feature(4));
    s.set_param("plane", ParamValue::Choice("YZ".into())).unwrap();
    assert_eq!(s, anvil::features::sketch::PlaneSource::Datum("YZ".into()));
    assert_eq!(s.set_param("depth", ParamValue::Bool(true)), Err("unknown parameter depth".to_string()));
}

#[test]
fn a_sketch_whose_plane_feature_is_removed_keeps_its_plane() {
    let mut s = anvil::features::sketch::PlaneSource::Feature(2);
    assert!(s.remap_refs(&anvil::document::Renumber::Insert(1)).is_empty());
    assert_eq!(s, anvil::features::sketch::PlaneSource::Feature(3));
    assert_eq!(s.remap_refs(&anvil::document::Renumber::Remove(3)), vec!["plane_feature"]);
    assert_eq!(s, anvil::features::sketch::PlaneSource::Custom);
}

#[test]
fn a_hole_names_its_size_and_place() {
    let mut h = anvil::features::hole::HoleFeature::default();
    assert_eq!(h.kind(), "hole");
    assert_eq!(h.name(), "Hole d=6 at (0, 0)");
    assert_eq!(h.params().len(), 9);
    h.set_param("plane", ParamValue::Choice("Feature".into())).unwrap();
    let p = h.params();
    assert_eq!(p.len(), 10);
    assert_eq!(p[9].name, "plane_feature");
    assert_eq!(p[9].value, ParamValue::FeatureRef(0));
    h.set_param("plane_feature", ParamValue::FeatureRef(4)).unwrap();
    assert_eq!(h.plane_feature, Some(4));
    assert_eq!(h.set_param("diameter", ParamValue::Bool(true)), Err("unknown parameter diameter".to_string()));
}

#[test]
fn text_names_its_font() {
    let t = anvil::features::emboss::TextFeature::default();
    let cat = anvil::fonts::catalogue(Vec::new());
    assert_eq!(t.name(&cat), "Text \"Anvil\" (DejaVu Sans)");
    let t = anvil::features::emboss::TextFeature { font_path: "builtin:Archivo Black".into(), ..t };
    assert_eq!(t.name(&cat), "Text \"Anvil\" (Archivo Black)");
    let p = t.params();
    assert_eq!(p.len(), 11);
    assert_eq!(p[1].kind, ParamKind::Font);
}

#[test]
fn text_shows_its_target_and_plane_feature_when_used() {
    let mut t = anvil::features::emboss::TextFeature::default();
    t.set_param("operation", ParamValue::Choice("cut".into())).unwrap();
    t.set_param("plane", ParamValue::Choice("Feature".into())).unwrap();
    let p = t.params();
    assert_eq!(p.len(), 13);
    assert_eq!(p[11].name, "target");
    assert_eq!(p[12].name, "plane_feature");
}

#[test]
fn qr_and_texture_defaults_and_names() {
    let q = anvil::features::emboss::QrFeature::default();
    assert_eq!(q.name(), "QR code (20 mm)");
    assert_eq!(q.params().len(), 8);
    let mut x = anvil::features::emboss::TextureFeature::default();
    assert_eq!(x.name(), "Texture (hex 3 mm)");
    x.set_param("shape", ParamValue::Choice("diamond".into())).unwrap();
    assert_eq!(x.name(), "Texture (diamond 3 mm)");
    assert_eq!(x.params().len(), 10);
}

#[test]
fn references_follow_the_history() {
    let mut e = ExtrudeFeature { sketch: 2, operation: "cut".into(), target: 5, ..ExtrudeFeature::default() };
    let broken = e.remap_refs(&anvil::document::Renumber::Remove(2));
    assert_eq!(broken, vec!["sketch"]);
    assert_eq!(e.sketch, usize::MAX);
    assert_eq!(e.target, 4);
    // A target that is not shown is left as it is.
    let mut e = ExtrudeFeature { sketch: 2, target: 5, ..ExtrudeFeature::default() };
    assert!(e.remap_refs(&anvil::document::Renumber::Insert(0)).is_empty());
    assert_eq!((e.sketch, e.target), (3, 5));
}

#[test]
fn an_unset_plane_feature_reads_as_feature_zero() {
    let mut h = anvil::features::hole::HoleFeature::default();
    h.set_param("plane", ParamValue::Choice("Feature".into())).unwrap();
    assert_eq!(h.plane_feature, None);
    h.remap_refs(&anvil::document::Renumber::Insert(0));
    assert_eq!(h.plane_feature, Some(1));
    assert_eq!(h.body, 2);
}

#[test]
fn circular_pattern_defaults_params_and_references() {
    let mut c = CircPatternFeature::default();
    assert_eq!((c.body, c.count.as_str(), c.total_angle.as_str(), c.axis.as_str(), c.axis_feature), (1, "6", "360", "Z", 0));
    assert_eq!(c.kind(), "circ_pattern");
    assert_eq!(c.name(), "Circular pattern (6 about Z)");
    let names: Vec<&str> = c.params().iter().map(|p| p.name).collect();
    assert_eq!(names, vec!["body", "axis", "count", "total_angle"]);
    assert_eq!(c.params()[3].kind, ParamKind::Angle);
    assert!(c.set_param("axis", ParamValue::Choice("Feature".into())).is_ok());
    assert!(c.set_param("axis_feature", ParamValue::FeatureRef(2)).is_ok());
    let names: Vec<&str> = c.params().iter().map(|p| p.name).collect();
    assert_eq!(names, vec!["body", "axis", "axis_feature", "count", "total_angle"]);
    assert_eq!(c.params()[2].kind, ParamKind::FeatureRef { accepts: vec![] });
    assert_eq!(c.set_param("count", ParamValue::Bool(true)), Err("unknown parameter count".to_string()));
    assert!(c.set_param("spin", ParamValue::Expr("1".into())).is_err());
    let broken = c.remap_refs(&anvil::document::Renumber::Remove(2));
    assert_eq!(broken, vec!["axis_feature"]);
    assert_eq!((c.body, c.axis_feature), (1, usize::MAX));
    let mut d = CircPatternFeature::default();
    d.axis_feature = 2;
    assert!(d.remap_refs(&anvil::document::Renumber::Remove(2)).is_empty());
    assert_eq!(d.axis_feature, 2);
}
