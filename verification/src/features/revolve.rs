//! Revolve: sweep a sketch profile about an axis in the sketch plane.

use vstd::prelude::*;
use crate::document::{renumber, renumbered, Renumber};
use crate::features::{body_type_list, body_types, moved_ref};
use crate::param::{is_angle, is_choice, is_length, is_ref, names_of, unknown_param, unknown_parameter, ParamSpec, ParamValue};
use crate::text::{owned, str_eq};

verus! {

/// The facet count of a document that does not give one.
pub fn default_segments() -> (r: String)
    ensures
        r@ == "64"@,
{
    owned("64")
}

/// Sweeps a sketch profile about an axis in the sketch plane.
#[derive(Clone, Debug)]
pub struct RevolveFeature {
    pub sketch: usize,
    /// "X" or "Y": the sketch axis to revolve about, through the sketch origin.
    pub axis: String,
    pub angle_deg: String,
    pub operation: String,
    pub target: usize,
    /// Facets per full turn.
    pub segments: String,
}

impl Default for RevolveFeature {
    fn default() -> (f: RevolveFeature)
        ensures
            f.sketch == 0,
            f.axis@ == "Y"@,
            f.angle_deg@ == "360"@,
            f.operation@ == "new"@,
            f.target == 0,
            f.segments@ == "64"@,
    {
        RevolveFeature {
            sketch: 0,
            axis: owned("Y"),
            angle_deg: owned("360"),
            operation: owned("new"),
            target: 0,
            segments: owned("64"),
        }
    }
}

impl RevolveFeature {
    pub fn kind(&self) -> (r: &'static str)
        ensures
            r@ == "revolve"@,
    {
        "revolve"
    }

    pub fn name(&self) -> (r: String)
        ensures
            r@ == "Revolve ("@ + self.angle_deg@ + " deg)"@,
    {
        let mut r = String::new();
        r.append("Revolve (");
        r.append(self.angle_deg.as_str());
        r.append(" deg)");
        assert(r@ =~= "Revolve ("@ + self.angle_deg@ + " deg)"@);
        r
    }

    pub fn params(&self) -> (v: Vec<ParamSpec>)
        ensures
            v@.len() == 5 + (if self.operation@ != "new"@ { 1int } else { 0int }),
            is_ref(v@[0], "sketch"@, "Sketch"@, seq!["sketch"@], self.sketch),
            is_choice(v@[1], "axis"@, "Axis"@, seq!["X"@, "Y"@], self.axis@),
            is_angle(v@[2], "angle"@, "Angle"@, self.angle_deg@),
            is_choice(v@[3], "operation"@, "Operation"@, seq!["new"@, "join"@, "cut"@, "intersect"@], self.operation@),
            is_length(v@[4], "segments"@, "Segments per turn"@, self.segments@),
            self.operation@ != "new"@ ==> is_ref(v@[5], "target"@, "Target body"@, body_type_list(), self.target),
    {
        let o0 = vec!["sketch"];
        assert(names_of(o0@) =~= seq!["sketch"@]);
        let o1 = vec!["X", "Y"];
        assert(names_of(o1@) =~= seq!["X"@, "Y"@]);
        let o2 = vec!["new", "join", "cut", "intersect"];
        assert(names_of(o2@) =~= seq!["new"@, "join"@, "cut"@, "intersect"@]);
        let mut v = vec![
            ParamSpec::feature_ref("sketch", "Sketch", o0, self.sketch),
            ParamSpec::choice("axis", "Axis", o1, self.axis.as_str()),
            ParamSpec::angle("angle", "Angle", self.angle_deg.as_str()),
            ParamSpec::choice("operation", "Operation", o2, self.operation.as_str()),
            ParamSpec::length("segments", "Segments per turn", self.segments.as_str()),
        ];
        if !str_eq(self.operation.as_str(), "new") {
            v.push(ParamSpec::feature_ref("target", "Target body", body_types(), self.target));
        }
        v
    }

    /// Sets parameter `name`; an unknown name, or a value of the wrong
    /// kind, changes nothing and is an error.
    pub fn set_param(&mut self, name: &str, value: ParamValue) -> (r: Result<(), String>)
        ensures
            if name@ == "sketch"@ {
                match value {
                    ParamValue::FeatureRef(x) => r is Ok && *final(self) == (RevolveFeature { sketch: x, ..*old(self) }),
                    _ => unknown_param(r, name@) && *final(self) == *old(self),
                }
            } else if name@ == "axis"@ {
                match value {
                    ParamValue::Choice(x) => r is Ok && *final(self) == (RevolveFeature { axis: x, ..*old(self) }),
                    _ => unknown_param(r, name@) && *final(self) == *old(self),
                }
            } else if name@ == "angle"@ {
                match value {
                    ParamValue::Expr(x) => r is Ok && *final(self) == (RevolveFeature { angle_deg: x, ..*old(self) }),
                    _ => unknown_param(r, name@) && *final(self) == *old(self),
                }
            } else if name@ == "operation"@ {
                match value {
                    ParamValue::Choice(x) => r is Ok && *final(self) == (RevolveFeature { operation: x, ..*old(self) }),
                    _ => unknown_param(r, name@) && *final(self) == *old(self),
                }
            } else if name@ == "target"@ {
                match value {
                    ParamValue::FeatureRef(x) => r is Ok && *final(self) == (RevolveFeature { target: x, ..*old(self) }),
                    _ => unknown_param(r, name@) && *final(self) == *old(self),
                }
            } else if name@ == "segments"@ {
                match value {
                    ParamValue::Expr(x) => r is Ok && *final(self) == (RevolveFeature { segments: x, ..*old(self) }),
                    _ => unknown_param(r, name@) && *final(self) == *old(self),
                }
            } else {
                unknown_param(r, name@) && *final(self) == *old(self)
            },
    {
        if str_eq(name, "sketch") {
            if let ParamValue::FeatureRef(x) = value {
                self.sketch = x;
                return Ok(());
            }
        } else if str_eq(name, "axis") {
            if let ParamValue::Choice(x) = value {
                self.axis = x;
                return Ok(());
            }
        } else if str_eq(name, "angle") {
            if let ParamValue::Expr(x) = value {
                self.angle_deg = x;
                return Ok(());
            }
        } else if str_eq(name, "operation") {
            if let ParamValue::Choice(x) = value {
                self.operation = x;
                return Ok(());
            }
        } else if str_eq(name, "target") {
            if let ParamValue::FeatureRef(x) = value {
                self.target = x;
                return Ok(());
            }
        } else if str_eq(name, "segments") {
            if let ParamValue::Expr(x) = value {
                self.segments = x;
                return Ok(());
            }
        }
        Err(unknown_parameter(name))
    }

    /// Follows a renumbering of the document's features: each feature
    /// reference moves with its feature; one whose feature is gone is
    /// named as broken and set to the deleted mark `usize::MAX`.
    pub fn remap_refs(&mut self, m: &Renumber) -> (broken: Vec<&'static str>)
        ensures
            *final(self) == (RevolveFeature { sketch: moved_ref(*m, old(self).sketch), target: if old(self).operation@ != "new"@ { moved_ref(*m, old(self).target) } else { old(self).target }, ..*old(self) }),
            broken@.map_values(|s: &'static str| s@) == (if renumbered(*m, old(self).sketch) is None { seq!["sketch"@] } else { Seq::empty() }) + (if old(self).operation@ != "new"@ && renumbered(*m, old(self).target) is None { seq!["target"@] } else { Seq::empty() }),
    {
        let ghost o = *self;
        let mut broken: Vec<&'static str> = Vec::new();
        match renumber(m, self.sketch) {
            Some(n) => {
                self.sketch = n;
            },
            None => {
                broken.push("sketch");
                self.sketch = usize::MAX;
            },
        }
        if !str_eq(self.operation.as_str(), "new") {
            match renumber(m, self.target) {
                Some(n) => {
                    self.target = n;
                },
                None => {
                    broken.push("target");
                    self.target = usize::MAX;
                },
            }
        }
        assert(broken@.map_values(|s: &'static str| s@) =~= (if renumbered(*m, o.sketch) is None { seq!["sketch"@] } else { Seq::empty() }) + (if o.operation@ != "new"@ && renumbered(*m, o.target) is None { seq!["target"@] } else { Seq::empty() }));
        broken
    }
}

} // verus!
