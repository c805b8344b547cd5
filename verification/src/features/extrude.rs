//! Extrude: sweep a sketch profile along the sketch plane normal.

use vstd::prelude::*;
use crate::document::{renumber, renumbered, Renumber};
use crate::features::{body_type_list, body_types, moved_ref};
use crate::param::{is_choice, is_flag, is_length, is_ref, names_of, unknown_param, unknown_parameter, ParamSpec, ParamValue};
use crate::text::{owned, str_eq};

verus! {

/// The boolean operation of a document that does not give one.
pub fn default_op() -> (r: String)
    ensures
        r@ == "new"@,
{
    owned("new")
}

/// Sweeps a sketch profile along the sketch plane normal.
#[derive(Clone, Debug)]
pub struct ExtrudeFeature {
    pub sketch: usize,
    pub distance: String,
    pub symmetric: bool,
    /// "new", "join", "cut", or "intersect".
    pub operation: String,
    /// Target body feature for join, cut, intersect.
    pub target: usize,
}

impl Default for ExtrudeFeature {
    fn default() -> (f: ExtrudeFeature)
        ensures
            f.sketch == 0,
            f.distance@ == "10"@,
            !f.symmetric,
            f.operation@ == "new"@,
            f.target == 0,
    {
        ExtrudeFeature {
            sketch: 0,
            distance: owned("10"),
            symmetric: false,
            operation: owned("new"),
            target: 0,
        }
    }
}

impl ExtrudeFeature {
    pub fn kind(&self) -> (r: &'static str)
        ensures
            r@ == "extrude"@,
    {
        "extrude"
    }

    pub fn name(&self) -> (r: String)
        ensures
            r@ == (if self.operation@ == "new"@ { "Extrude ("@ + self.distance@ + ")"@ } else { "Extrude "@ + self.operation@ + " ("@ + self.distance@ + ")"@ }),
    {
        let mut r = String::new();
        if str_eq(self.operation.as_str(), "new") {
            r.append("Extrude (");
            r.append(self.distance.as_str());
            r.append(")");
        } else {
            r.append("Extrude ");
            r.append(self.operation.as_str());
            r.append(" (");
            r.append(self.distance.as_str());
            r.append(")");
        }
        assert(r@ =~= (if self.operation@ == "new"@ { "Extrude ("@ + self.distance@ + ")"@ } else { "Extrude "@ + self.operation@ + " ("@ + self.distance@ + ")"@ }));
        r
    }

    pub fn params(&self) -> (v: Vec<ParamSpec>)
        ensures
            v@.len() == 4 + (if self.operation@ != "new"@ { 1int } else { 0int }),
            is_ref(v@[0], "sketch"@, "Sketch"@, seq!["sketch"@], self.sketch),
            is_length(v@[1], "distance"@, "Distance"@, self.distance@),
            is_flag(v@[2], "symmetric"@, "Symmetric"@, self.symmetric),
            is_choice(v@[3], "operation"@, "Operation"@, seq!["new"@, "join"@, "cut"@, "intersect"@], self.operation@),
            self.operation@ != "new"@ ==> is_ref(v@[4], "target"@, "Target body"@, body_type_list(), self.target),
    {
        let o0 = vec!["sketch"];
        assert(names_of(o0@) =~= seq!["sketch"@]);
        let o1 = vec!["new", "join", "cut", "intersect"];
        assert(names_of(o1@) =~= seq!["new"@, "join"@, "cut"@, "intersect"@]);
        let mut v = vec![
            ParamSpec::feature_ref("sketch", "Sketch", o0, self.sketch),
            ParamSpec::length("distance", "Distance", self.distance.as_str()),
            ParamSpec::boolean("symmetric", "Symmetric", self.symmetric),
            ParamSpec::choice("operation", "Operation", o1, self.operation.as_str()),
        ];
        if !str_eq(self.operation.as_str(), "new") {
            v.push(ParamSpec::feature_ref("target", "Target body", body_types(), self.target));
        }
        v
    }

    /// Sets parameter `name`; an unknown name, or a value of the wrong
    /// kind, changes nothing and is an error.
    pub fn set_param(&mut self, name: &str, value: ParamValue) -> (r: Result<(), String>)
        ensures
            if name@ == "sketch"@ {
                match value {
                    ParamValue::FeatureRef(x) => r is Ok && *final(self) == (ExtrudeFeature { sketch: x, ..*old(self) }),
                    _ => unknown_param(r, name@) && *final(self) == *old(self),
                }
            } else if name@ == "distance"@ {
                match value {
                    ParamValue::Expr(x) => r is Ok && *final(self) == (ExtrudeFeature { distance: x, ..*old(self) }),
                    _ => unknown_param(r, name@) && *final(self) == *old(self),
                }
            } else if name@ == "symmetric"@ {
                match value {
                    ParamValue::Bool(x) => r is Ok && *final(self) == (ExtrudeFeature { symmetric: x, ..*old(self) }),
                    _ => unknown_param(r, name@) && *final(self) == *old(self),
                }
            } else if name@ == "operation"@ {
                match value {
                    ParamValue::Choice(x) => r is Ok && *final(self) == (ExtrudeFeature { operation: x, ..*old(self) }),
                    _ => unknown_param(r, name@) && *final(self) == *old(self),
                }
            } else if name@ == "target"@ {
                match value {
                    ParamValue::FeatureRef(x) => r is Ok && *final(self) == (ExtrudeFeature { target: x, ..*old(self) }),
                    _ => unknown_param(r, name@) && *final(self) == *old(self),
                }
            } else {
                unknown_param(r, name@) && *final(self) == *old(self)
            },
    {
        if str_eq(name, "sketch") {
            if let ParamValue::FeatureRef(x) = value {
                self.sketch = x;
                return Ok(());
            }
        } else if str_eq(name, "distance") {
            if let ParamValue::Expr(x) = value {
                self.distance = x;
                return Ok(());
            }
        } else if str_eq(name, "symmetric") {
            if let ParamValue::Bool(x) = value {
                self.symmetric = x;
                return Ok(());
            }
        } else if str_eq(name, "operation") {
            if let ParamValue::Choice(x) = value {
                self.operation = x;
                return Ok(());
            }
        } else if str_eq(name, "target") {
            if let ParamValue::FeatureRef(x) = value {
                self.target = x;
                return Ok(());
            }
        }
        Err(unknown_parameter(name))
    }

    /// Follows a renumbering of the document's features: each feature
    /// reference moves with its feature; one whose feature is gone is
    /// named as broken and set to the deleted mark `usize::MAX`.
    pub fn remap_refs(&mut self, m: &Renumber) -> (broken: Vec<&'static str>)
        ensures
            *final(self) == (ExtrudeFeature { sketch: moved_ref(*m, old(self).sketch), target: if old(self).operation@ != "new"@ { moved_ref(*m, old(self).target) } else { old(self).target }, ..*old(self) }),
            broken@.map_values(|s: &'static str| s@) == (if renumbered(*m, old(self).sketch) is None { seq!["sketch"@] } else { Seq::empty() }) + (if old(self).operation@ != "new"@ && renumbered(*m, old(self).target) is None { seq!["target"@] } else { Seq::empty() }),
    {
        let ghost o = *self;
        let mut broken: Vec<&'static str> = Vec::new();
        match renumber(m, self.sketch) {
            Some(n) => {
                self.sketch = n;
            },
            None => {
                broken.push("sketch");
                self.sketch = usize::MAX;
            },
        }
        if !str_eq(self.operation.as_str(), "new") {
            match renumber(m, self.target) {
                Some(n) => {
                    self.target = n;
                },
                None => {
                    broken.push("target");
                    self.target = usize::MAX;
                },
            }
        }
        assert(broken@.map_values(|s: &'static str| s@) =~= (if renumbered(*m, o.sketch) is None { seq!["sketch"@] } else { Seq::empty() }) + (if o.operation@ != "new"@ && renumbered(*m, o.target) is None { seq!["target"@] } else { Seq::empty() }));
        broken
    }
}

} // verus!
