//! A reference to a plane: a datum, a plane feature, or a flat face of a
//! body. A face is kept by the plane it was measured on, which the
//! document carries along as `P` and the kernel finds again.

use vstd::prelude::*;
use crate::document::{renumber, renumbered, Renumber};
use crate::region_select::{parse_index, parse_index_at};
use crate::text::{chars_of, decimal, owned, push_char, push_decimal, trim, trim_bounds, upper, upper_text};

verus! {

#[derive(Clone, Debug, PartialEq)]
pub enum PlaneRef<P> {
    /// Nothing chosen yet.
    Unset,
    /// A datum plane by name: "XY", "XZ" or "YZ".
    Datum(String),
    /// A feature whose output carries a plane.
    Feature(usize),
    /// A planar face of a body, found again by its geometry.
    Face { feature: usize, body: usize, plane: P },
}

/// The datum names, in capitals.
pub open spec fn is_datum_name(u: Seq<char>) -> bool {
    u == seq!['X', 'Y'] || u == seq!['X', 'Z'] || u == seq!['Y', 'Z']
}

/// What the old text form `s` reads as: a datum name in any case, stored in
/// capitals; else a feature number; else nothing.
pub open spec fn parses_as<P>(r: PlaneRef<P>, s: Seq<char>) -> bool {
    let t = trim(s);
    if is_datum_name(upper_text(t)) {
        r matches PlaneRef::Datum(d) && d@ == upper_text(t)
    } else {
        match parse_index(t) {
            Some(i) => r == PlaneRef::<P>::Feature(i),
            None => r == PlaneRef::<P>::Unset,
        }
    }
}

/// The short text of a reference, without feature names.
pub open spec fn short_text<P>(r: PlaneRef<P>) -> Seq<char> {
    match r {
        PlaneRef::Unset => seq!['?'],
        PlaneRef::Datum(s) => s@,
        PlaneRef::Feature(i) => decimal(i as nat),
        PlaneRef::Face { feature, .. } => "face of "@ + decimal(feature as nat),
    }
}

/// Feature `i` as the properties panel names it: its number and its name,
/// or "(missing)" when the history has no such feature.
pub open spec fn feature_label(names: Seq<String>, i: usize) -> Seq<char> {
    decimal(i as nat) + ": "@ + if i < names.len() {
        names[i as int]@
    } else {
        "(missing)"@
    }
}

/// The text of a reference in the properties panel, in a history whose
/// features are named `names`.
pub open spec fn label_text<P>(r: PlaneRef<P>, names: Seq<String>) -> Seq<char> {
    match r {
        PlaneRef::Unset => "(none)"@,
        PlaneRef::Datum(s) => s@,
        PlaneRef::Feature(i) => feature_label(names, i),
        PlaneRef::Face { feature, body, .. } => if body == 0 {
            "Face of "@ + feature_label(names, feature)
        } else {
            "Face of "@ + feature_label(names, feature) + ", body "@ + decimal((body + 1) as nat)
        },
    }
}

/// Appends the label of feature `i`.
fn push_feature_label(r: &mut String, names: &[String], i: usize)
    ensures
        final(r)@ == old(r)@ + feature_label(names@, i),
{
    push_decimal(r, i as u64);
    r.append(": ");
    if i < names.len() {
        r.append(names[i].as_str());
    } else {
        r.append("(missing)");
    }
}

/// The feature a reference needs, if any.
pub open spec fn needed<P>(r: PlaneRef<P>) -> Option<usize> {
    match r {
        PlaneRef::Feature(i) => Some(i),
        PlaneRef::Face { feature, .. } => Some(feature),
        _ => None,
    }
}

/// The same reference after the change `m`; `None` when the feature it
/// names is gone.
pub open spec fn moved_plane<P>(r: PlaneRef<P>, m: Renumber) -> Option<PlaneRef<P>> {
    match r {
        PlaneRef::Feature(i) => match renumbered(m, i) {
            Some(n) => Some(PlaneRef::Feature(n)),
            None => None,
        },
        PlaneRef::Face { feature, body, plane } => match renumbered(m, feature) {
            Some(n) => Some(PlaneRef::Face { feature: n, body, plane }),
            None => None,
        },
        _ => Some(r),
    }
}

impl<P: Copy> PlaneRef<P> {
    /// Reads the old text form: a datum name or a feature number. Anything
    /// else is `Unset`.
    pub fn parse(s: &str) -> (r: PlaneRef<P>)
        ensures
            parses_as(r, s@),
    {
        let v = chars_of(s);
        let (a, b) = trim_bounds(&v, 0, v.len());
        let ghost t = v@.subrange(a as int, b as int);
        assert(v@.subrange(0, v@.len() as int) =~= s@);
        assert(t == trim(s@));
        if b - a == 2 {
            let c0 = upper(v[a]);
            let c1 = upper(v[a + 1]);
            if (c0 == 'X' && (c1 == 'Y' || c1 == 'Z')) || (c0 == 'Y' && c1 == 'Z') {
                let mut d = String::new();
                push_char(&mut d, c0);
                push_char(&mut d, c1);
                assert(d@ =~= upper_text(t));
                assert(upper_text(t) =~= seq![c0, c1]);
                return PlaneRef::Datum(d);
            }
            proof {
                let u = upper_text(t);
                assert(u[0] == c0 && u[1] == c1);
                assert(!is_datum_name(u)) by {
                    if u == seq!['X', 'Y'] || u == seq!['X', 'Z'] || u == seq!['Y', 'Z'] {
                        assert(u[0] == seq!['X', 'Y'][0] || u[0] == seq!['Y', 'Z'][0]);
                    }
                }
            }
        } else {
            assert(upper_text(t).len() == t.len());
        }
        match parse_index_at(&v, a, b) {
            Some(i) => PlaneRef::Feature(i),
            None => PlaneRef::Unset,
        }
    }

    /// Combines the old saved pair: an unset choice and the feature number
    /// stored beside it.
    pub fn from_saved(r: PlaneRef<P>, feature: Option<usize>) -> (out: PlaneRef<P>)
        ensures
            out == (match (r, feature) {
                (PlaneRef::Unset, Some(i)) => PlaneRef::Feature(i),
                _ => r,
            }),
    {
        match (r, feature) {
            (PlaneRef::Unset, Some(i)) => PlaneRef::Feature(i),
            (r, _) => r,
        }
    }

    /// Short text for the properties panel, such as "XY", "3: Extrude" or
    /// "Face of 3: Extrude", the features of the history being named
    /// `names`.
    pub fn label(&self, names: &[String]) -> (r: String)
        requires
            self matches PlaneRef::Face { body, .. } ==> body < usize::MAX,
        ensures
            r@ == label_text(*self, names@),
    {
        match self {
            PlaneRef::Unset => owned("(none)"),
            PlaneRef::Datum(s) => s.clone(),
            PlaneRef::Feature(i) => {
                let mut r = String::new();
                push_feature_label(&mut r, names, *i);
                assert(r@ =~= feature_label(names@, *i));
                r
            },
            PlaneRef::Face { feature, body, .. } => {
                let mut r = owned("Face of ");
                push_feature_label(&mut r, names, *feature);
                if *body != 0 {
                    r.append(", body ");
                    push_decimal(&mut r, (*body + 1) as u64);
                }
                r
            },
        }
    }

    /// Short text without feature names, for a feature's own name: "?",
    /// "XY", "3" or "face of 3".
    pub fn short(&self) -> (r: String)
        ensures
            r@ == short_text(*self),
    {
        match self {
            PlaneRef::Unset => {
                let mut r = String::new();
                push_char(&mut r, '?');
                assert(r@ =~= seq!['?']);
                r
            },
            PlaneRef::Datum(s) => s.clone(),
            PlaneRef::Feature(i) => {
                let mut r = String::new();
                push_decimal(&mut r, *i as u64);
                assert(r@ =~= decimal(*i as nat));
                r
            },
            PlaneRef::Face { feature, .. } => {
                let mut r = owned("face of ");
                push_decimal(&mut r, *feature as u64);
                r
            },
        }
    }

    /// The feature this reference needs to exist.
    pub fn depends_on(&self) -> (r: Option<usize>)
        ensures
            r == needed(*self),
    {
        match self {
            PlaneRef::Feature(i) => Some(*i),
            PlaneRef::Face { feature, .. } => Some(*feature),
            _ => None,
        }
    }

    /// The same reference after the history changed by `m`; `None` when the
    /// feature it names was deleted.
    pub fn remapped(&self, m: &Renumber) -> (r: Option<PlaneRef<P>>)
        ensures
            r == moved_plane(*self, *m),
    {
        match self {
            PlaneRef::Unset => Some(PlaneRef::Unset),
            PlaneRef::Datum(s) => Some(PlaneRef::Datum(s.clone())),
            PlaneRef::Feature(i) => match renumber(m, *i) {
                Some(n) => Some(PlaneRef::Feature(n)),
                None => None,
            },
            PlaneRef::Face { feature, body, plane } => match renumber(m, *feature) {
                Some(n) => Some(PlaneRef::Face { feature: n, body: *body, plane: *plane }),
                None => None,
            },
        }
    }
}

} // verus!
