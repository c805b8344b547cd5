//! Hole: a round hole cut into a body, placed on a plane by (x, y).

use vstd::prelude::*;
use crate::document::{renumber, renumbered, Renumber};
use crate::features::{body_type_list, body_types, plane_type_list, plane_types, moved_ref, moved_opt};
use crate::param::{is_choice, is_length, is_ref, names_of, unknown_param, unknown_parameter, ParamSpec, ParamValue};
use crate::text::{owned, str_eq};

verus! {

/// A round hole cut into a body, placed on a plane by (x, y).
///
/// The plane of a picked face, when `plane` is "Face", is kept with the
/// geometry and is not part of this record.
#[derive(Clone, Debug)]
pub struct HoleFeature {
    pub body: usize,
    pub plane: String,
    pub plane_feature: Option<usize>,
    pub x: String,
    pub y: String,
    pub z: String,
    pub diameter: String,
    /// Depth into the body from the plane, along the negative normal.
    /// A large value makes a through hole.
    pub depth: String,
    /// Optional counterbore: diameter and depth. Zero disables it.
    pub cbore_diameter: String,
    pub cbore_depth: String,
}

impl Default for HoleFeature {
    fn default() -> (f: HoleFeature)
        ensures
            f.body == 1,
            f.plane@ == "XY"@,
            f.plane_feature is None,
            f.x@ == "0"@,
            f.y@ == "0"@,
            f.z@ == "0"@,
            f.diameter@ == "6"@,
            f.depth@ == "100"@,
            f.cbore_diameter@ == "0"@,
            f.cbore_depth@ == "0"@,
    {
        HoleFeature {
            body: 1,
            plane: owned("XY"),
            plane_feature: None,
            x: owned("0"),
            y: owned("0"),
            z: owned("0"),
            diameter: owned("6"),
            depth: owned("100"),
            cbore_diameter: owned("0"),
            cbore_depth: owned("0"),
        }
    }
}

impl HoleFeature {
    pub fn kind(&self) -> (r: &'static str)
        ensures
            r@ == "hole"@,
    {
        "hole"
    }

    pub fn name(&self) -> (r: String)
        ensures
            r@ == "Hole d="@ + self.diameter@ + " at ("@ + self.x@ + ", "@ + self.y@ + ")"@,
    {
        let mut r = String::new();
        r.append("Hole d=");
        r.append(self.diameter.as_str());
        r.append(" at (");
        r.append(self.x.as_str());
        r.append(", ");
        r.append(self.y.as_str());
        r.append(")");
        assert(r@ =~= "Hole d="@ + self.diameter@ + " at ("@ + self.x@ + ", "@ + self.y@ + ")"@);
        r
    }

    pub fn params(&self) -> (v: Vec<ParamSpec>)
        ensures
            v@.len() == 9 + (if self.plane@ == "Feature"@ { 1int } else { 0int }),
            is_ref(v@[0], "body"@, "Body"@, body_type_list(), self.body),
            is_choice(v@[1], "plane"@, "Plane"@, seq!["XY"@, "XZ"@, "YZ"@, "Feature"@, "Face"@], self.plane@),
            is_length(v@[2], "x"@, "X on plane"@, self.x@),
            is_length(v@[3], "y"@, "Y on plane"@, self.y@),
            is_length(v@[4], "z"@, "Plane offset (the hole drills against the plane normal)"@, self.z@),
            is_length(v@[5], "diameter"@, "Diameter"@, self.diameter@),
            is_length(v@[6], "depth"@, "Depth (large = through)"@, self.depth@),
            is_length(v@[7], "cbore_diameter"@, "Counterbore diameter (0 = none)"@, self.cbore_diameter@),
            is_length(v@[8], "cbore_depth"@, "Counterbore depth"@, self.cbore_depth@),
            self.plane@ == "Feature"@ ==> is_ref(v@[9], "plane_feature"@, "Plane feature"@, plane_type_list(), match self.plane_feature { Some(i) => i, None => 0usize }),
    {
        let o0 = vec!["XY", "XZ", "YZ", "Feature", "Face"];
        assert(names_of(o0@) =~= seq!["XY"@, "XZ"@, "YZ"@, "Feature"@, "Face"@]);
        let mut v = vec![
            ParamSpec::feature_ref("body", "Body", body_types(), self.body),
            ParamSpec::choice("plane", "Plane", o0, self.plane.as_str()),
            ParamSpec::length("x", "X on plane", self.x.as_str()),
            ParamSpec::length("y", "Y on plane", self.y.as_str()),
            ParamSpec::length("z", "Plane offset (the hole drills against the plane normal)", self.z.as_str()),
            ParamSpec::length("diameter", "Diameter", self.diameter.as_str()),
            ParamSpec::length("depth", "Depth (large = through)", self.depth.as_str()),
            ParamSpec::length("cbore_diameter", "Counterbore diameter (0 = none)", self.cbore_diameter.as_str()),
            ParamSpec::length("cbore_depth", "Counterbore depth", self.cbore_depth.as_str()),
        ];
        if str_eq(self.plane.as_str(), "Feature") {
            v.push(ParamSpec::feature_ref("plane_feature", "Plane feature", plane_types(), match self.plane_feature { Some(i) => i, None => 0 }));
        }
        v
    }

    /// Sets parameter `name`; an unknown name, or a value of the wrong
    /// kind, changes nothing and is an error.
    pub fn set_param(&mut self, name: &str, value: ParamValue) -> (r: Result<(), String>)
        ensures
            if name@ == "body"@ {
                match value {
                    ParamValue::FeatureRef(x) => r is Ok && *final(self) == (HoleFeature { body: x, ..*old(self) }),
                    _ => unknown_param(r, name@) && *final(self) == *old(self),
                }
            } else if name@ == "plane"@ {
                match value {
                    ParamValue::Choice(x) => r is Ok && *final(self) == (HoleFeature { plane: x, ..*old(self) }),
                    _ => unknown_param(r, name@) && *final(self) == *old(self),
                }
            } else if name@ == "plane_feature"@ {
                match value {
                    ParamValue::FeatureRef(x) => r is Ok && *final(self) == (HoleFeature { plane_feature: Some(x), ..*old(self) }),
                    _ => unknown_param(r, name@) && *final(self) == *old(self),
                }
            } else if name@ == "x"@ {
                match value {
                    ParamValue::Expr(x) => r is Ok && *final(self) == (HoleFeature { x: x, ..*old(self) }),
                    _ => unknown_param(r, name@) && *final(self) == *old(self),
                }
            } else if name@ == "y"@ {
                match value {
                    ParamValue::Expr(x) => r is Ok && *final(self) == (HoleFeature { y: x, ..*old(self) }),
                    _ => unknown_param(r, name@) && *final(self) == *old(self),
                }
            } else if name@ == "z"@ {
                match value {
                    ParamValue::Expr(x) => r is Ok && *final(self) == (HoleFeature { z: x, ..*old(self) }),
                    _ => unknown_param(r, name@) && *final(self) == *old(self),
                }
            } else if name@ == "diameter"@ {
                match value {
                    ParamValue::Expr(x) => r is Ok && *final(self) == (HoleFeature { diameter: x, ..*old(self) }),
                    _ => unknown_param(r, name@) && *final(self) == *old(self),
                }
            } else if name@ == "depth"@ {
                match value {
                    ParamValue::Expr(x) => r is Ok && *final(self) == (HoleFeature { depth: x, ..*old(self) }),
                    _ => unknown_param(r, name@) && *final(self) == *old(self),
                }
            } else if name@ == "cbore_diameter"@ {
                match value {
                    ParamValue::Expr(x) => r is Ok && *final(self) == (HoleFeature { cbore_diameter: x, ..*old(self) }),
                    _ => unknown_param(r, name@) && *final(self) == *old(self),
                }
            } else if name@ == "cbore_depth"@ {
                match value {
                    ParamValue::Expr(x) => r is Ok && *final(self) == (HoleFeature { cbore_depth: x, ..*old(self) }),
                    _ => unknown_param(r, name@) && *final(self) == *old(self),
                }
            } else {
                unknown_param(r, name@) && *final(self) == *old(self)
            },
    {
        if str_eq(name, "body") {
            if let ParamValue::FeatureRef(x) = value {
                self.body = x;
                return Ok(());
            }
        } else if str_eq(name, "plane") {
            if let ParamValue::Choice(x) = value {
                self.plane = x;
                return Ok(());
            }
        } else if str_eq(name, "plane_feature") {
            if let ParamValue::FeatureRef(x) = value {
                self.plane_feature = Some(x);
                return Ok(());
            }
        } else if str_eq(name, "x") {
            if let ParamValue::Expr(x) = value {
                self.x = x;
                return Ok(());
            }
        } else if str_eq(name, "y") {
            if let ParamValue::Expr(x) = value {
                self.y = x;
                return Ok(());
            }
        } else if str_eq(name, "z") {
            if let ParamValue::Expr(x) = value {
                self.z = x;
                return Ok(());
            }
        } else if str_eq(name, "diameter") {
            if let ParamValue::Expr(x) = value {
                self.diameter = x;
                return Ok(());
            }
        } else if str_eq(name, "depth") {
            if let ParamValue::Expr(x) = value {
                self.depth = x;
                return Ok(());
            }
        } else if str_eq(name, "cbore_diameter") {
            if let ParamValue::Expr(x) = value {
                self.cbore_diameter = x;
                return Ok(());
            }
        } else if str_eq(name, "cbore_depth") {
            if let ParamValue::Expr(x) = value {
                self.cbore_depth = x;
                return Ok(());
            }
        }
        Err(unknown_parameter(name))
    }

    /// Follows a renumbering of the document's features: each feature
    /// reference moves with its feature; one whose feature is gone is
    /// named as broken and set to the deleted mark `usize::MAX`.
    pub fn remap_refs(&mut self, m: &Renumber) -> (broken: Vec<&'static str>)
        ensures
            *final(self) == (HoleFeature { body: moved_ref(*m, old(self).body), plane_feature: if old(self).plane@ == "Feature"@ { moved_opt(*m, old(self).plane_feature) } else { old(self).plane_feature }, ..*old(self) }),
            broken@.map_values(|s: &'static str| s@) == (if renumbered(*m, old(self).body) is None { seq!["body"@] } else { Seq::empty() }) + (if old(self).plane@ == "Feature"@ && renumbered(*m, match old(self).plane_feature { Some(i) => i, None => 0usize }) is None { seq!["plane_feature"@] } else { Seq::empty() }),
    {
        let ghost o = *self;
        let mut broken: Vec<&'static str> = Vec::new();
        match renumber(m, self.body) {
            Some(n) => {
                self.body = n;
            },
            None => {
                broken.push("body");
                self.body = usize::MAX;
            },
        }
        if str_eq(self.plane.as_str(), "Feature") {
            let shown = match self.plane_feature { Some(i) => i, None => 0 };
            match renumber(m, shown) {
                Some(n) => if n != shown {
                    self.plane_feature = Some(n);
                },
                None => {
                    broken.push("plane_feature");
                    self.plane_feature = Some(usize::MAX);
                },
            }
        }
        assert(broken@.map_values(|s: &'static str| s@) =~= (if renumbered(*m, o.body) is None { seq!["body"@] } else { Seq::empty() }) + (if o.plane@ == "Feature"@ && renumbered(*m, match o.plane_feature { Some(i) => i, None => 0usize }) is None { seq!["plane_feature"@] } else { Seq::empty() }));
        broken
    }
}

} // verus!
