//! 3MF packages: which part of the zip package holds the 3D model.
//!
//! Reading the model's meshes into geometry is the caller's work.

use vstd::prelude::*;
use crate::text::{ascii_lower, chars_of, eq_ignore_case, eq_ignore_case_from, lossy_text, lower, owned, str_eq, text_from_bytes};
use crate::xml::{first_value, lemma_next_spec, tags_from, TagView, Tags};
use crate::zip::{read_spec, Zip};

verus! {

/// Whether `s` ends with `suffix`.
pub open spec fn ends_with(s: Seq<char>, suffix: Seq<char>) -> bool {
    s.len() >= suffix.len() && s.skip(s.len() - suffix.len()) == suffix
}

/// The target of the first relationship to a 3D model that names one.
pub open spec fn model_target(tags: Seq<TagView>) -> Option<Seq<char>>
    decreases tags.len(),
{
    if tags.len() == 0 {
        None
    } else {
        let t = tags[0];
        let to_model = t.0 == "Relationship"@ && match first_value(t.3, "Type"@) {
            Some(ty) => ends_with(ty, "/3dmodel"@),
            None => false,
        };
        if to_model && first_value(t.3, "Target"@) is Some {
            first_value(t.3, "Target"@)
        } else {
            model_target(tags.drop_first())
        }
    }
}

/// Where a 3MF package usually keeps its model.
pub open spec fn usual_part() -> Seq<char> {
    "3D/3dmodel.model"@
}

/// The first name that ends with ".model", in any ASCII case.
pub open spec fn first_model_name(names: Seq<Seq<char>>) -> Option<Seq<char>>
    decreases names.len(),
{
    if names.len() == 0 {
        None
    } else if ends_with(names[0].map_values(|c: char| ascii_lower(c)), ".model"@) {
        Some(names[0])
    } else {
        first_model_name(names.drop_first())
    }
}

/// The target that the package relationships name for the 3D model.
pub open spec fn rels_target(bytes: Seq<u8>, entries: Seq<(Seq<char>, int, int, int, int, int)>) -> Option<Seq<char>> {
    match read_spec(bytes, entries, "_rels/.rels"@) {
        Ok(b) => model_target(tags_from(lossy_text(b), 0)),
        Err(_) => None,
    }
}

/// The model part of a package whose relationships name none: the usual
/// name, if an entry has it in any ASCII case; else the first entry whose
/// name ends with ".model"; else the usual name.
pub open spec fn fallback_part(entries: Seq<(Seq<char>, int, int, int, int, int)>) -> Seq<char> {
    let names = entries.map_values(|e: (Seq<char>, int, int, int, int, int)| e.0);
    if exists|k: int| 0 <= k < names.len() && eq_ignore_case(#[trigger] names[k], usual_part()) {
        usual_part()
    } else {
        match first_model_name(names) {
            Some(n) => n,
            None => usual_part(),
        }
    }
}

/// The model part of a package with these bytes and entries: the target
/// of the package relationship to a 3D model, else `fallback_part`.
pub open spec fn model_part_of(bytes: Seq<u8>, entries: Seq<(Seq<char>, int, int, int, int, int)>) -> Seq<char> {
    match rels_target(bytes, entries) {
        Some(t) => t,
        None => fallback_part(entries),
    }
}

/// Whether `s` ends with `suffix`.
fn ends_with_text(s: &str, suffix: &str) -> (r: bool)
    ensures
        r == ends_with(s@, suffix@),
{
    let a = chars_of(s);
    let b = chars_of(suffix);
    if a.len() < b.len() {
        return false;
    }
    let n = a.len();
    let off = n - b.len();
    let mut i: usize = 0;
    while i < b.len()
        invariant
            i <= b@.len(),
            n == a@.len(),
            a@ == s@,
            b@ == suffix@,
            off + b@.len() == a@.len(),
            forall|j: int| 0 <= j < i ==> a@[off + j] == b@[j],
        decreases b@.len() - i,
    {
        if a[off + i] != b[i] {
            assert(a@.skip(off as int)[i as int] != b@[i as int]);
            return false;
        }
        i = i + 1;
    }
    assert(a@.skip(off as int) =~= b@);
    true
}

/// Whether `s` ends with ".model" in any ASCII case.
fn ends_with_model(s: &str) -> (r: bool)
    ensures
        r == ends_with(s@.map_values(|c: char| ascii_lower(c)), ".model"@),
{
    let a = chars_of(s);
    let b = chars_of(".model");
    let ghost low = s@.map_values(|c: char| ascii_lower(c));
    if a.len() < b.len() {
        return false;
    }
    let n = a.len();
    let off = n - b.len();
    let mut i: usize = 0;
    while i < b.len()
        invariant
            i <= b@.len(),
            n == a@.len(),
            a@ == s@,
            b@ == ".model"@,
            low == s@.map_values(|c: char| ascii_lower(c)),
            off + b@.len() == a@.len(),
            forall|j: int| 0 <= j < i ==> low[off + j] == b@[j],
        decreases b@.len() - i,
    {
        if lower(a[off + i]) != b[i] {
            assert(low.skip(off as int)[i as int] != b@[i as int]);
            return false;
        }
        i = i + 1;
    }
    assert(low.skip(off as int) =~= b@);
    true
}

/// The part of the package that holds the 3D model, as `model_part_of`.
pub fn model_part(zip: &Zip) -> (r: String)
    ensures
        r@ == model_part_of(zip.bytes(), zip.entries()),
{
    match zip.read("_rels/.rels") {
        Ok(bytes) => {
            let text = text_from_bytes(bytes.as_slice());
            let mut tags = Tags::new(text.as_str());
            let ghost s = tags.text();
            loop
                invariant_except_break
                    0 <= tags.pos() <= s.len(),
                    rels_target(zip.bytes(), zip.entries()) == model_target(tags_from(s, tags.pos())),
                invariant
                    tags.text() == s,
                ensures
                    rels_target(zip.bytes(), zip.entries()) is None,
                decreases s.len() - tags.pos(),
            {
                let ghost i = tags.pos();
                proof {
                    lemma_next_spec(s, i);
                }
                match tags.next_tag() {
                    None => {
                        assert(tags_from(s, i) =~= Seq::<TagView>::empty());
                        break;
                    },
                    Some(tag) => {
                        let ghost rest = tags_from(s, tags.pos());
                        assert(tags_from(s, i) == seq![tag@] + rest);
                        assert((seq![tag@] + rest).drop_first() =~= rest);
                        if str_eq(tag.name.as_str(), "Relationship") {
                            let to_model = match tag.attr("Type") {
                                Some(ty) => ends_with_text(ty, "/3dmodel"),
                                None => false,
                            };
                            if to_model {
                                match tag.attr("Target") {
                                    Some(t) => return owned(t),
                                    None => {},
                                }
                            }
                        }
                    },
                }
            }
        },
        Err(_) => {},
    }
    fallback(zip)
}

/// The model part when the relationships name none, as `fallback_part`.
fn fallback(zip: &Zip) -> (r: String)
    ensures
        r@ == fallback_part(zip.entries()),
{
    let names = zip.names();
    let ghost nv = zip.entries().map_values(|e: (Seq<char>, int, int, int, int, int)| e.0);
    assert(names@.map_values(|s: &str| s@) == nv);
    let usual = chars_of("3D/3dmodel.model");
    let mut k: usize = 0;
    while k < names.len()
        invariant
            k <= names@.len(),
            names@.map_values(|s: &str| s@) == nv,
            nv == zip.entries().map_values(|e: (Seq<char>, int, int, int, int, int)| e.0),
            usual@ == usual_part(),
            forall|j: int| 0 <= j < k ==> !eq_ignore_case(#[trigger] nv[j], usual_part()),
        decreases names@.len() - k,
    {
        let n = chars_of(names[k]);
        assert(nv[k as int] == names@[k as int]@);
        assert(n@.skip(0) =~= n@);
        assert(usual@.skip(0) =~= usual@);
        if eq_ignore_case_from(&n, 0, &usual, 0) {
            return owned("3D/3dmodel.model");
        }
        k = k + 1;
    }
    let mut k: usize = 0;
    assert(nv.skip(0) =~= nv);
    while k < names.len()
        invariant
            k <= names@.len(),
            names@.map_values(|s: &str| s@) == nv,
            nv == zip.entries().map_values(|e: (Seq<char>, int, int, int, int, int)| e.0),
            !exists|j: int| 0 <= j < nv.len() && eq_ignore_case(#[trigger] nv[j], usual_part()),
            first_model_name(nv) == first_model_name(nv.skip(k as int)),
        decreases names@.len() - k,
    {
        assert(nv.skip(k as int)[0] == names@[k as int]@);
        assert(nv.skip(k as int).drop_first() =~= nv.skip(k + 1));
        if ends_with_model(names[k]) {
            return owned(names[k]);
        }
        k = k + 1;
    }
    owned("3D/3dmodel.model")
}

} // verus!
