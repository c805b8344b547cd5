//! Sketch: the plane a sketch is drawn on. The sketch's curves and its
//! solver belong to the sketching kernel; this is what the document edits.

use vstd::prelude::*;
use crate::document::{renumber, renumbered, Renumber};
use crate::features::{plane_type_list, plane_types};
use crate::param::{is_choice, is_ref, names_of, unknown_param, unknown_parameter, ParamSpec, ParamValue};
use crate::text::{decimal, owned, push_decimal, str_eq};

verus! {

/// Where a sketch's plane comes from.
#[derive(Clone, Debug, PartialEq, Eq)]
pub enum PlaneSource {
    /// A datum plane by name: "XY", "XZ" or "YZ".
    Datum(String),
    /// The plane of another feature.
    Feature(usize),
    /// A plane of its own, such as a face it was placed on.
    Custom,
}

/// How a sketch names its plane.
pub open spec fn source_label(s: PlaneSource) -> Seq<char> {
    match s {
        PlaneSource::Datum(d) => d@,
        PlaneSource::Feature(i) => "plane of "@ + decimal(i as nat),
        PlaneSource::Custom => "face"@,
    }
}

/// The value of the plane choice.
pub open spec fn plane_choice(s: PlaneSource) -> Seq<char> {
    match s {
        PlaneSource::Datum(d) => d@,
        PlaneSource::Feature(_) => "Feature"@,
        PlaneSource::Custom => "Custom"@,
    }
}

impl Default for PlaneSource {
    fn default() -> (s: PlaneSource)
        ensures
            s matches PlaneSource::Datum(d) && d@ == "XY"@,
    {
        PlaneSource::Datum(owned("XY"))
    }
}

impl PlaneSource {
    pub fn label(&self) -> (r: String)
        ensures
            r@ == source_label(*self),
    {
        match self {
            PlaneSource::Datum(d) => d.clone(),
            PlaneSource::Feature(i) => {
                let mut r = owned("plane of ");
                push_decimal(&mut r, *i as u64);
                r
            },
            PlaneSource::Custom => owned("face"),
        }
    }

    /// The sketch's name: "Sketch (" and the plane's label, ")".
    pub fn sketch_name(&self) -> (r: String)
        ensures
            r@ == "Sketch ("@ + source_label(*self) + ")"@,
    {
        let mut r = owned("Sketch (");
        let l = self.label();
        r.append(l.as_str());
        r.append(")");
        r
    }

    /// The parameters a sketch shows for its plane.
    pub fn params(&self) -> (v: Vec<ParamSpec>)
        ensures
            v@.len() == (if self is Feature { 2int } else { 1int }),
            is_choice(v@[0], "plane"@, "Plane"@, seq!["XY"@, "XZ"@, "YZ"@, "Feature"@, "Custom"@], plane_choice(*self)),
            *self matches PlaneSource::Feature(i) ==> is_ref(v@[1], "plane_feature"@, "Plane feature"@, plane_type_list(), i),
    {
        let o = vec!["XY", "XZ", "YZ", "Feature", "Custom"];
        assert(names_of(o@) =~= seq!["XY"@, "XZ"@, "YZ"@, "Feature"@, "Custom"@]);
        let choice: &str = match self {
            PlaneSource::Datum(d) => d.as_str(),
            PlaneSource::Feature(_) => "Feature",
            PlaneSource::Custom => "Custom",
        };
        let mut v = vec![ParamSpec::choice("plane", "Plane", o, choice)];
        if let PlaneSource::Feature(i) = self {
            v.push(ParamSpec::feature_ref("plane_feature", "Plane feature", plane_types(), *i));
        }
        v
    }

    /// Sets parameter `name`. A plane choice of "Feature" starts at feature
    /// 0, "Custom" keeps the plane the sketch has, and any other choice is
    /// a datum plane by that name, which the sketch then moves onto.
    pub fn set_param(&mut self, name: &str, value: ParamValue) -> (r: Result<(), String>)
        ensures
            if name@ == "plane"@ {
                match value {
                    ParamValue::Choice(p) => r is Ok && *final(self) == (if p@ == "Feature"@ {
                        PlaneSource::Feature(0)
                    } else if p@ == "Custom"@ {
                        PlaneSource::Custom
                    } else {
                        PlaneSource::Datum(p)
                    }),
                    _ => unknown_param(r, name@) && *final(self) == *old(self),
                }
            } else if name@ == "plane_feature"@ {
                match value {
                    ParamValue::FeatureRef(i) => r is Ok && *final(self) == PlaneSource::Feature(i),
                    _ => unknown_param(r, name@) && *final(self) == *old(self),
                }
            } else {
                unknown_param(r, name@) && *final(self) == *old(self)
            },
    {
        if str_eq(name, "plane") {
            if let ParamValue::Choice(p) = value {
                *self = if str_eq(p.as_str(), "Feature") {
                    PlaneSource::Feature(0)
                } else if str_eq(p.as_str(), "Custom") {
                    PlaneSource::Custom
                } else {
                    PlaneSource::Datum(p)
                };
                return Ok(());
            }
        } else if str_eq(name, "plane_feature") {
            if let ParamValue::FeatureRef(i) = value {
                *self = PlaneSource::Feature(i);
                return Ok(());
            }
        }
        Err(unknown_parameter(name))
    }

    /// Follows a renumbering of the document's features. A sketch whose
    /// plane feature is gone keeps its last plane as a plane of its own,
    /// and names "plane_feature" as broken.
    pub fn remap_refs(&mut self, m: &Renumber) -> (broken: Vec<&'static str>)
        ensures
            match *old(self) {
                PlaneSource::Feature(i) => match renumbered(*m, i) {
                    Some(n) => *final(self) == PlaneSource::Feature(n) && broken@.len() == 0,
                    None => *final(self) == PlaneSource::Custom && broken@.len() == 1 && broken@[0]@
                        == "plane_feature"@,
                },
                _ => *final(self) == *old(self) && broken@.len() == 0,
            },
    {
        if let PlaneSource::Feature(i) = *self {
            match renumber(m, i) {
                Some(n) => *self = PlaneSource::Feature(n),
                None => {
                    *self = PlaneSource::Custom;
                    return vec!["plane_feature"];
                },
            }
        }
        Vec::new()
    }
}

} // verus!
