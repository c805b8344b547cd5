use anvil::zip::Zip;
use std::io::Write;

/// A zip of `(name, data, uncompressed size, method)` entries. The CRC is
/// left at zero: the reader does not check it.
fn build(files: &[(&str, &[u8], u32, u16)]) -> Vec<u8> {
    let mut out = Vec::new();
    let mut central = Vec::new();
    for (name, data, size, method) in files {
        let off = out.len() as u32;
        out.extend_from_slice(&0x0403_4b50u32.to_le_bytes());
        out.extend_from_slice(&[20, 0, 0, 0]);
        out.extend_from_slice(&method.to_le_bytes());
        out.extend_from_slice(&[0; 8]);
        out.extend_from_slice(&(data.len() as u32).to_le_bytes());
        out.extend_from_slice(&size.to_le_bytes());
        out.extend_from_slice(&(name.len() as u16).to_le_bytes());
        out.extend_from_slice(&0u16.to_le_bytes());
        out.extend_from_slice(name.as_bytes());
        out.extend_from_slice(data);
        central.extend_from_slice(&0x0201_4b50u32.to_le_bytes());
        central.extend_from_slice(&[20, 0, 20, 0, 0, 0]);
        central.extend_from_slice(&method.to_le_bytes());
        central.extend_from_slice(&[0; 8]);
        central.extend_from_slice(&(data.len() as u32).to_le_bytes());
        central.extend_from_slice(&size.to_le_bytes());
        central.extend_from_slice(&(name.len() as u16).to_le_bytes());
        central.extend_from_slice(&[0; 12]);
        central.extend_from_slice(&off.to_le_bytes());
        central.extend_from_slice(name.as_bytes());
    }
    let cd = out.len() as u32;
    out.extend_from_slice(&central);
    out.extend_from_slice(&0x0605_4b50u32.to_le_bytes());
    out.extend_from_slice(&[0; 4]);
    out.extend_from_slice(&(files.len() as u16).to_le_bytes());
    out.extend_from_slice(&(files.len() as u16).to_le_bytes());
    out.extend_from_slice(&(central.len() as u32).to_le_bytes());
    out.extend_from_slice(&cd.to_le_bytes());
    out.extend_from_slice(&[0; 2]);
    out
}

/// A zip of stored entries.
fn store(files: &[(&str, &[u8])]) -> Vec<u8> {
    let v: Vec<(&str, &[u8], u32, u16)> = files.iter().map(|(n, d)| (*n, *d, d.len() as u32, 0)).collect();
    build(&v)
}

#[test]
fn a_truncated_zip_is_an_error() {
    let z = store(&[("a.txt", b"hello")]);
    assert_eq!(Zip::open(&z).unwrap().read("a.txt").unwrap(), b"hello");
    for cut in [4, 20, z.len() - 10] {
        let r = Zip::open(&z[..cut]).and_then(|zip| zip.read("a.txt"));
        assert!(r.is_err(), "cut at {cut} read {r:?}");
    }
}

#[test]
fn names_come_in_directory_order() {
    let z = store(&[("b.txt", b"1"), ("a/c.model", b"22")]);
    let zip = Zip::open(&z).unwrap();
    assert_eq!(zip.names(), vec!["b.txt", "a/c.model"]);
    assert_eq!(zip.read("a/c.model").unwrap(), b"22");
    assert!(zip.read("missing").is_err());
}

#[test]
fn a_deflated_entry_opens() {
    let text = b"<model>deflated text, deflated text, deflated text</model>";
    let mut enc = flate2::write::DeflateEncoder::new(Vec::new(), flate2::Compression::default());
    enc.write_all(text).unwrap();
    let packed = enc.finish().unwrap();
    let z = build(&[("3D/3dmodel.model", &packed, text.len() as u32, 8)]);
    let zip = Zip::open(&z).unwrap();
    assert_eq!(zip.read("3D/3dmodel.model").unwrap(), text.to_vec());
}

#[test]
fn an_unknown_method_is_refused() {
    let z = build(&[("x.bin", b"abc", 3, 12)]);
    let zip = Zip::open(&z).unwrap();
    assert_eq!(zip.read("x.bin").unwrap_err(), "x.bin uses zip method 12, which is not supported");
}

#[test]
fn not_a_zip_is_an_error() {
    assert_eq!(Zip::open(b"plain text, no zip here").err().unwrap(), "not a zip file, or a damaged one");
    assert!(Zip::open(&[]).is_err());
}

#[test]
fn the_relationships_name_the_model_part() {
    let rels = br#"<?xml version="1.0"?><Relationships xmlns="x"><Relationship Target="/3D/part.model" Id="rel0" Type="http://schemas.microsoft.com/3dmanufacturing/2013/01/3dmodel"/></Relationships>"#;
    let bytes = store(&[("_rels/.rels", rels), ("3D/3dmodel.model", b"<model/>")]);
    let z = Zip::open(&bytes).unwrap();
    assert_eq!(anvil::threemf::model_part(&z), "/3D/part.model");
}

#[test]
fn without_relationships_the_usual_name_is_found_in_any_case() {
    let bytes = store(&[("a.model", b"x"), ("3d/3DMODEL.MODEL", b"<model/>")]);
    let z = Zip::open(&bytes).unwrap();
    assert_eq!(anvil::threemf::model_part(&z), "3D/3dmodel.model");
}

#[test]
fn else_the_first_model_entry_is_taken() {
    let rels = br#"<Relationships><Relationship Target="/Metadata/thumb.png" Type="http://x/thumbnail"/></Relationships>"#;
    let bytes = store(&[("_rels/.rels", rels), ("notes.txt", b"n"), ("parts/Thing.MODEL", b"<model/>")]);
    let z = Zip::open(&bytes).unwrap();
    assert_eq!(anvil::threemf::model_part(&z), "parts/Thing.MODEL");
    let bytes = store(&[("notes.txt", b"n")]);
    let z = Zip::open(&bytes).unwrap();
    assert_eq!(anvil::threemf::model_part(&z), "3D/3dmodel.model");
}
