//! Pattern on face: raised dots over one continuous curved surface.

use vstd::prelude::*;
use crate::document::{renumber, renumbered, Renumber};
use crate::features::{body_type_list, body_types, moved_ref};
use crate::param::{is_choice, is_length, is_ref, names_of, unknown_param, unknown_parameter, ParamSpec, ParamValue};
use crate::text::{owned, str_eq};

verus! {

/// Raised dots over one continuous curved surface.
#[derive(Clone, Debug)]
pub struct SurfacePatternFeature {
    pub body: usize,
    /// Curved surface id on that body.
    pub surface: String,
    pub layout: String,
    /// Dots per row around the axis. `0` picks the count from `pitch`.
    pub columns: String,
    /// Distance between dot centres along a row, at the wide end.
    pub pitch: String,
    /// Dot diameter at the wide end.
    pub dot: String,
    /// Dot diameter at the far end. `0` scales the dots with the radius.
    pub dot_end: String,
    pub height: String,
    /// Mesh step of the refined surface.
    pub step: String,
    /// Dot free band at both ends of the surface.
    pub margin: String,
}

impl Default for SurfacePatternFeature {
    fn default() -> (f: SurfacePatternFeature)
        ensures
            f.body == 0,
            f.surface@ == "0"@,
            f.layout@ == "hobnail"@,
            f.columns@ == "0"@,
            f.pitch@ == "4.5"@,
            f.dot@ == "3"@,
            f.dot_end@ == "0"@,
            f.height@ == "1"@,
            f.step@ == "0.6"@,
            f.margin@ == "2"@,
    {
        SurfacePatternFeature {
            body: 0,
            surface: owned("0"),
            layout: owned("hobnail"),
            columns: owned("0"),
            pitch: owned("4.5"),
            dot: owned("3"),
            dot_end: owned("0"),
            height: owned("1"),
            step: owned("0.6"),
            margin: owned("2"),
        }
    }
}

impl SurfacePatternFeature {
    pub fn kind(&self) -> (r: &'static str)
        ensures
            r@ == "surface_pattern"@,
    {
        "surface_pattern"
    }

    pub fn name(&self) -> (r: String)
        ensures
            r@ == "Pattern on face ("@ + self.layout@ + " "@ + self.dot@ + " mm)"@,
    {
        let mut r = String::new();
        r.append("Pattern on face (");
        r.append(self.layout.as_str());
        r.append(" ");
        r.append(self.dot.as_str());
        r.append(" mm)");
        assert(r@ =~= "Pattern on face ("@ + self.layout@ + " "@ + self.dot@ + " mm)"@);
        r
    }

    pub fn params(&self) -> (v: Vec<ParamSpec>)
        ensures
            v@.len() == 10,
            is_ref(v@[0], "body"@, "Body"@, body_type_list(), self.body),
            is_length(v@[1], "surface"@, "Surface id (pick a face)"@, self.surface@),
            is_choice(v@[2], "layout"@, "Layout"@, seq!["hobnail"@, "tortoiseshell"@], self.layout@),
            is_length(v@[3], "pitch"@, "Pitch"@, self.pitch@),
            is_length(v@[4], "columns"@, "Dots per row (0 = from pitch)"@, self.columns@),
            is_length(v@[5], "dot"@, "Dot diameter"@, self.dot@),
            is_length(v@[6], "dot_end"@, "Dot diameter at far end (0 = scale)"@, self.dot_end@),
            is_length(v@[7], "height"@, "Dot height"@, self.height@),
            is_length(v@[8], "margin"@, "Margin at ends"@, self.margin@),
            is_length(v@[9], "step"@, "Mesh step"@, self.step@),
    {
        let o0 = vec!["hobnail", "tortoiseshell"];
        assert(names_of(o0@) =~= seq!["hobnail"@, "tortoiseshell"@]);
        vec![
            ParamSpec::feature_ref("body", "Body", body_types(), self.body),
            ParamSpec::length("surface", "Surface id (pick a face)", self.surface.as_str()),
            ParamSpec::choice("layout", "Layout", o0, self.layout.as_str()),
            ParamSpec::length("pitch", "Pitch", self.pitch.as_str()),
            ParamSpec::length("columns", "Dots per row (0 = from pitch)", self.columns.as_str()),
            ParamSpec::length("dot", "Dot diameter", self.dot.as_str()),
            ParamSpec::length("dot_end", "Dot diameter at far end (0 = scale)", self.dot_end.as_str()),
            ParamSpec::length("height", "Dot height", self.height.as_str()),
            ParamSpec::length("margin", "Margin at ends", self.margin.as_str()),
            ParamSpec::length("step", "Mesh step", self.step.as_str()),
        ]
    }

    /// Sets parameter `name`; an unknown name, or a value of the wrong
    /// kind, changes nothing and is an error.
    pub fn set_param(&mut self, name: &str, value: ParamValue) -> (r: Result<(), String>)
        ensures
            if name@ == "body"@ {
                match value {
                    ParamValue::FeatureRef(x) => r is Ok && *final(self) == (SurfacePatternFeature { body: x, ..*old(self) }),
                    _ => unknown_param(r, name@) && *final(self) == *old(self),
                }
            } else if name@ == "surface"@ {
                match value {
                    ParamValue::Expr(x) => r is Ok && *final(self) == (SurfacePatternFeature { surface: x, ..*old(self) }),
                    _ => unknown_param(r, name@) && *final(self) == *old(self),
                }
            } else if name@ == "layout"@ {
                match value {
                    ParamValue::Choice(x) => r is Ok && *final(self) == (SurfacePatternFeature { layout: x, ..*old(self) }),
                    _ => unknown_param(r, name@) && *final(self) == *old(self),
                }
            } else if name@ == "pitch"@ {
                match value {
                    ParamValue::Expr(x) => r is Ok && *final(self) == (SurfacePatternFeature { pitch: x, ..*old(self) }),
                    _ => unknown_param(r, name@) && *final(self) == *old(self),
                }
            } else if name@ == "columns"@ {
                match value {
                    ParamValue::Expr(x) => r is Ok && *final(self) == (SurfacePatternFeature { columns: x, ..*old(self) }),
                    _ => unknown_param(r, name@) && *final(self) == *old(self),
                }
            } else if name@ == "dot"@ {
                match value {
                    ParamValue::Expr(x) => r is Ok && *final(self) == (SurfacePatternFeature { dot: x, ..*old(self) }),
                    _ => unknown_param(r, name@) && *final(self) == *old(self),
                }
            } else if name@ == "dot_end"@ {
                match value {
                    ParamValue::Expr(x) => r is Ok && *final(self) == (SurfacePatternFeature { dot_end: x, ..*old(self) }),
                    _ => unknown_param(r, name@) && *final(self) == *old(self),
                }
            } else if name@ == "height"@ {
                match value {
                    ParamValue::Expr(x) => r is Ok && *final(self) == (SurfacePatternFeature { height: x, ..*old(self) }),
                    _ => unknown_param(r, name@) && *final(self) == *old(self),
                }
            } else if name@ == "margin"@ {
                match value {
                    ParamValue::Expr(x) => r is Ok && *final(self) == (SurfacePatternFeature { margin: x, ..*old(self) }),
                    _ => unknown_param(r, name@) && *final(self) == *old(self),
                }
            } else if name@ == "step"@ {
                match value {
                    ParamValue::Expr(x) => r is Ok && *final(self) == (SurfacePatternFeature { step: x, ..*old(self) }),
                    _ => unknown_param(r, name@) && *final(self) == *old(self),
                }
            } else {
                unknown_param(r, name@) && *final(self) == *old(self)
            },
    {
        if str_eq(name, "body") {
            if let ParamValue::FeatureRef(x) = value {
                self.body = x;
                return Ok(());
            }
        } else if str_eq(name, "surface") {
            if let ParamValue::Expr(x) = value {
                self.surface = x;
                return Ok(());
            }
        } else if str_eq(name, "layout") {
            if let ParamValue::Choice(x) = value {
                self.layout = x;
                return Ok(());
            }
        } else if str_eq(name, "pitch") {
            if let ParamValue::Expr(x) = value {
                self.pitch = x;
                return Ok(());
            }
        } else if str_eq(name, "columns") {
            if let ParamValue::Expr(x) = value {
                self.columns = x;
                return Ok(());
            }
        } else if str_eq(name, "dot") {
            if let ParamValue::Expr(x) = value {
                self.dot = x;
                return Ok(());
            }
        } else if str_eq(name, "dot_end") {
            if let ParamValue::Expr(x) = value {
                self.dot_end = x;
                return Ok(());
            }
        } else if str_eq(name, "height") {
            if let ParamValue::Expr(x) = value {
                self.height = x;
                return Ok(());
            }
        } else if str_eq(name, "margin") {
            if let ParamValue::Expr(x) = value {
                self.margin = x;
                return Ok(());
            }
        } else if str_eq(name, "step") {
            if let ParamValue::Expr(x) = value {
                self.step = x;
                return Ok(());
            }
        }
        Err(unknown_parameter(name))
    }

    /// Follows a renumbering of the document's features: each feature
    /// reference moves with its feature; one whose feature is gone is
    /// named as broken and set to the deleted mark `usize::MAX`.
    pub fn remap_refs(&mut self, m: &Renumber) -> (broken: Vec<&'static str>)
        ensures
            *final(self) == (SurfacePatternFeature { body: moved_ref(*m, old(self).body), ..*old(self) }),
            broken@.map_values(|s: &'static str| s@) == (if renumbered(*m, old(self).body) is None { seq!["body"@] } else { Seq::empty() }),
    {
        let ghost o = *self;
        let mut broken: Vec<&'static str> = Vec::new();
        match renumber(m, self.body) {
            Some(n) => {
                self.body = n;
            },
            None => {
                broken.push("body");
                self.body = usize::MAX;
            },
        }
        assert(broken@.map_values(|s: &'static str| s@) =~= (if renumbered(*m, o.body) is None { seq!["body"@] } else { Seq::empty() }));
        broken
    }
}

} // verus!
