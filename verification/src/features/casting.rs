//! Sand casting: Sprue, Runner, Riser, and the checks of a casting.

use vstd::prelude::*;
use crate::document::{renumber, renumbered, Renumber};
use crate::features::{body_type_list, body_types, moved_ref};
use crate::param::{is_angle, is_choice, is_flag, is_length, is_ref, names_of, unknown_param, unknown_parameter, ParamSpec, ParamValue};
use crate::text::{owned, str_eq};

verus! {

/// The names of the alloys the casting features know, the default first.
pub open spec fn alloy_name_list() -> Seq<Seq<char>> {
    seq!["grey cast iron"@, "A356 aluminium"@, "AZ91 magnesium"@]
}

pub fn alloy_names() -> (v: Vec<&'static str>)
    ensures
        names_of(v@) == alloy_name_list(),
{
    let v = vec!["grey cast iron", "A356 aluminium", "AZ91 magnesium"];
    assert(names_of(v@) =~= alloy_name_list());
    v
}

/// The measured freeze time of a document that does not give one.
pub fn zero() -> (r: String)
    ensures
        r@ == "0"@,
{
    owned("0")
}

/// Pouring cup, tapered sprue, and well, revolved about a vertical axis.
#[derive(Clone, Debug)]
pub struct SprueFeature {
    pub x: String,
    pub y: String,
    /// Z of the rim of the pouring cup, the top of the whole feature.
    pub top_z: String,
    pub cup_diameter: String,
    pub cup_depth: String,
    pub sprue_top_diameter: String,
    pub sprue_bottom_diameter: String,
    pub sprue_height: String,
    pub well_diameter: String,
    pub well_depth: String,
}

impl Default for SprueFeature {
    fn default() -> (f: SprueFeature)
        ensures
            f.x@ == "0"@,
            f.y@ == "0"@,
            f.top_z@ == "0"@,
            f.cup_diameter@ == "40"@,
            f.cup_depth@ == "20"@,
            f.sprue_top_diameter@ == "18"@,
            f.sprue_bottom_diameter@ == "12"@,
            f.sprue_height@ == "120"@,
            f.well_diameter@ == "30"@,
            f.well_depth@ == "15"@,
    {
        SprueFeature {
            x: owned("0"),
            y: owned("0"),
            top_z: owned("0"),
            cup_diameter: owned("40"),
            cup_depth: owned("20"),
            sprue_top_diameter: owned("18"),
            sprue_bottom_diameter: owned("12"),
            sprue_height: owned("120"),
            well_diameter: owned("30"),
            well_depth: owned("15"),
        }
    }
}

impl SprueFeature {
    pub fn kind(&self) -> (r: &'static str)
        ensures
            r@ == "sprue"@,
    {
        "sprue"
    }

    pub fn name(&self) -> (r: String)
        ensures
            r@ == "Sprue (h="@ + self.sprue_height@ + ")"@,
    {
        let mut r = String::new();
        r.append("Sprue (h=");
        r.append(self.sprue_height.as_str());
        r.append(")");
        assert(r@ =~= "Sprue (h="@ + self.sprue_height@ + ")"@);
        r
    }

    pub fn params(&self) -> (v: Vec<ParamSpec>)
        ensures
            v@.len() == 10,
            is_length(v@[0], "x"@, "Axis X"@, self.x@),
            is_length(v@[1], "y"@, "Axis Y"@, self.y@),
            is_length(v@[2], "top_z"@, "Top Z"@, self.top_z@),
            is_length(v@[3], "cup_diameter"@, "Pouring cup diameter"@, self.cup_diameter@),
            is_length(v@[4], "cup_depth"@, "Pouring cup depth"@, self.cup_depth@),
            is_length(v@[5], "sprue_top_diameter"@, "Sprue top diameter"@, self.sprue_top_diameter@),
            is_length(v@[6], "sprue_bottom_diameter"@, "Sprue bottom diameter"@, self.sprue_bottom_diameter@),
            is_length(v@[7], "sprue_height"@, "Sprue height"@, self.sprue_height@),
            is_length(v@[8], "well_diameter"@, "Well diameter"@, self.well_diameter@),
            is_length(v@[9], "well_depth"@, "Well depth"@, self.well_depth@),
    {
        vec![
            ParamSpec::length("x", "Axis X", self.x.as_str()),
            ParamSpec::length("y", "Axis Y", self.y.as_str()),
            ParamSpec::length("top_z", "Top Z", self.top_z.as_str()),
            ParamSpec::length("cup_diameter", "Pouring cup diameter", self.cup_diameter.as_str()),
            ParamSpec::length("cup_depth", "Pouring cup depth", self.cup_depth.as_str()),
            ParamSpec::length("sprue_top_diameter", "Sprue top diameter", self.sprue_top_diameter.as_str()),
            ParamSpec::length("sprue_bottom_diameter", "Sprue bottom diameter", self.sprue_bottom_diameter.as_str()),
            ParamSpec::length("sprue_height", "Sprue height", self.sprue_height.as_str()),
            ParamSpec::length("well_diameter", "Well diameter", self.well_diameter.as_str()),
            ParamSpec::length("well_depth", "Well depth", self.well_depth.as_str()),
        ]
    }

    /// Sets parameter `name`; an unknown name, or a value of the wrong
    /// kind, changes nothing and is an error.
    pub fn set_param(&mut self, name: &str, value: ParamValue) -> (r: Result<(), String>)
        ensures
            match value {
                ParamValue::Expr(x) => {
                    if name@ == "x"@ {
                        r is Ok && *final(self) == (SprueFeature { x: x, ..*old(self) })
                    } else if name@ == "y"@ {
                        r is Ok && *final(self) == (SprueFeature { y: x, ..*old(self) })
                    } else if name@ == "top_z"@ {
                        r is Ok && *final(self) == (SprueFeature { top_z: x, ..*old(self) })
                    } else if name@ == "cup_diameter"@ {
                        r is Ok && *final(self) == (SprueFeature { cup_diameter: x, ..*old(self) })
                    } else if name@ == "cup_depth"@ {
                        r is Ok && *final(self) == (SprueFeature { cup_depth: x, ..*old(self) })
                    } else if name@ == "sprue_top_diameter"@ {
                        r is Ok && *final(self) == (SprueFeature { sprue_top_diameter: x, ..*old(self) })
                    } else if name@ == "sprue_bottom_diameter"@ {
                        r is Ok && *final(self) == (SprueFeature { sprue_bottom_diameter: x, ..*old(self) })
                    } else if name@ == "sprue_height"@ {
                        r is Ok && *final(self) == (SprueFeature { sprue_height: x, ..*old(self) })
                    } else if name@ == "well_diameter"@ {
                        r is Ok && *final(self) == (SprueFeature { well_diameter: x, ..*old(self) })
                    } else if name@ == "well_depth"@ {
                        r is Ok && *final(self) == (SprueFeature { well_depth: x, ..*old(self) })
                    } else {
                        unknown_param(r, name@) && *final(self) == *old(self)
                    }
                },
                _ => r matches Err(m) && m@ == "expected an expression"@ && *final(self) == *old(self),
            },
    {
        let x = match value {
            ParamValue::Expr(x) => x,
            _ => return Err(owned("expected an expression")),
        };
        if str_eq(name, "x") {
            self.x = x;
        } else if str_eq(name, "y") {
            self.y = x;
        } else if str_eq(name, "top_z") {
            self.top_z = x;
        } else if str_eq(name, "cup_diameter") {
            self.cup_diameter = x;
        } else if str_eq(name, "cup_depth") {
            self.cup_depth = x;
        } else if str_eq(name, "sprue_top_diameter") {
            self.sprue_top_diameter = x;
        } else if str_eq(name, "sprue_bottom_diameter") {
            self.sprue_bottom_diameter = x;
        } else if str_eq(name, "sprue_height") {
            self.sprue_height = x;
        } else if str_eq(name, "well_diameter") {
            self.well_diameter = x;
        } else if str_eq(name, "well_depth") {
            self.well_depth = x;
        } else {
            return Err(unknown_parameter(name));
        }
        Ok(())
    }
}

/// Straight gating channel with a trapezoid cross section, wider at the
/// bottom so the pattern draws cleanly out of the sand.
#[derive(Clone, Debug)]
pub struct RunnerFeature {
    pub start_x: String,
    pub start_y: String,
    pub end_x: String,
    pub end_y: String,
    /// Z of the bottom of the runner, the same at both ends.
    pub end_z: String,
    pub width: String,
    pub height: String,
    /// Fraction (0 to 1) the bottom width shrinks from start to end.
    pub taper: String,
}

impl Default for RunnerFeature {
    fn default() -> (f: RunnerFeature)
        ensures
            f.start_x@ == "0"@,
            f.start_y@ == "0"@,
            f.end_x@ == "100"@,
            f.end_y@ == "0"@,
            f.end_z@ == "0"@,
            f.width@ == "20"@,
            f.height@ == "15"@,
            f.taper@ == "0"@,
    {
        RunnerFeature {
            start_x: owned("0"),
            start_y: owned("0"),
            end_x: owned("100"),
            end_y: owned("0"),
            end_z: owned("0"),
            width: owned("20"),
            height: owned("15"),
            taper: owned("0"),
        }
    }
}

impl RunnerFeature {
    pub fn kind(&self) -> (r: &'static str)
        ensures
            r@ == "runner"@,
    {
        "runner"
    }

    pub fn name(&self) -> (r: String)
        ensures
            r@ == "Runner ("@ + self.width@ + " x "@ + self.height@ + ")"@,
    {
        let mut r = String::new();
        r.append("Runner (");
        r.append(self.width.as_str());
        r.append(" x ");
        r.append(self.height.as_str());
        r.append(")");
        assert(r@ =~= "Runner ("@ + self.width@ + " x "@ + self.height@ + ")"@);
        r
    }

    pub fn params(&self) -> (v: Vec<ParamSpec>)
        ensures
            v@.len() == 8,
            is_length(v@[0], "start_x"@, "Start X"@, self.start_x@),
            is_length(v@[1], "start_y"@, "Start Y"@, self.start_y@),
            is_length(v@[2], "end_x"@, "End X"@, self.end_x@),
            is_length(v@[3], "end_y"@, "End Y"@, self.end_y@),
            is_length(v@[4], "end_z"@, "Bottom Z"@, self.end_z@),
            is_length(v@[5], "width"@, "Width (bottom)"@, self.width@),
            is_length(v@[6], "height"@, "Height"@, self.height@),
            is_length(v@[7], "taper"@, "Taper (0 to 1)"@, self.taper@),
    {
        vec![
            ParamSpec::length("start_x", "Start X", self.start_x.as_str()),
            ParamSpec::length("start_y", "Start Y", self.start_y.as_str()),
            ParamSpec::length("end_x", "End X", self.end_x.as_str()),
            ParamSpec::length("end_y", "End Y", self.end_y.as_str()),
            ParamSpec::length("end_z", "Bottom Z", self.end_z.as_str()),
            ParamSpec::length("width", "Width (bottom)", self.width.as_str()),
            ParamSpec::length("height", "Height", self.height.as_str()),
            ParamSpec::length("taper", "Taper (0 to 1)", self.taper.as_str()),
        ]
    }

    /// Sets parameter `name`; an unknown name, or a value of the wrong
    /// kind, changes nothing and is an error.
    pub fn set_param(&mut self, name: &str, value: ParamValue) -> (r: Result<(), String>)
        ensures
            match value {
                ParamValue::Expr(x) => {
                    if name@ == "start_x"@ {
                        r is Ok && *final(self) == (RunnerFeature { start_x: x, ..*old(self) })
                    } else if name@ == "start_y"@ {
                        r is Ok && *final(self) == (RunnerFeature { start_y: x, ..*old(self) })
                    } else if name@ == "end_x"@ {
                        r is Ok && *final(self) == (RunnerFeature { end_x: x, ..*old(self) })
                    } else if name@ == "end_y"@ {
                        r is Ok && *final(self) == (RunnerFeature { end_y: x, ..*old(self) })
                    } else if name@ == "end_z"@ {
                        r is Ok && *final(self) == (RunnerFeature { end_z: x, ..*old(self) })
                    } else if name@ == "width"@ {
                        r is Ok && *final(self) == (RunnerFeature { width: x, ..*old(self) })
                    } else if name@ == "height"@ {
                        r is Ok && *final(self) == (RunnerFeature { height: x, ..*old(self) })
                    } else if name@ == "taper"@ {
                        r is Ok && *final(self) == (RunnerFeature { taper: x, ..*old(self) })
                    } else {
                        unknown_param(r, name@) && *final(self) == *old(self)
                    }
                },
                _ => r matches Err(m) && m@ == "expected an expression"@ && *final(self) == *old(self),
            },
    {
        let x = match value {
            ParamValue::Expr(x) => x,
            _ => return Err(owned("expected an expression")),
        };
        if str_eq(name, "start_x") {
            self.start_x = x;
        } else if str_eq(name, "start_y") {
            self.start_y = x;
        } else if str_eq(name, "end_x") {
            self.end_x = x;
        } else if str_eq(name, "end_y") {
            self.end_y = x;
        } else if str_eq(name, "end_z") {
            self.end_z = x;
        } else if str_eq(name, "width") {
            self.width = x;
        } else if str_eq(name, "height") {
            self.height = x;
        } else if str_eq(name, "taper") {
            self.taper = x;
        } else {
            return Err(unknown_parameter(name));
        }
        Ok(())
    }
}

/// Cylindrical riser with a narrow neck, unioned from two cylinders. A
/// blind riser gets a domed top from a sphere cap.
#[derive(Clone, Debug)]
pub struct RiserFeature {
    pub x: String,
    pub y: String,
    pub base_z: String,
    pub diameter: String,
    pub height: String,
    pub neck_diameter: String,
    pub neck_length: String,
    pub blind: bool,
}

impl Default for RiserFeature {
    fn default() -> (f: RiserFeature)
        ensures
            f.x@ == "0"@,
            f.y@ == "0"@,
            f.base_z@ == "0"@,
            f.diameter@ == "50"@,
            f.height@ == "80"@,
            f.neck_diameter@ == "25"@,
            f.neck_length@ == "10"@,
            f.blind,
    {
        RiserFeature {
            x: owned("0"),
            y: owned("0"),
            base_z: owned("0"),
            diameter: owned("50"),
            height: owned("80"),
            neck_diameter: owned("25"),
            neck_length: owned("10"),
            blind: true,
        }
    }
}

impl RiserFeature {
    pub fn kind(&self) -> (r: &'static str)
        ensures
            r@ == "riser"@,
    {
        "riser"
    }

    pub fn name(&self) -> (r: String)
        ensures
            r@ == "Riser (d="@ + self.diameter@ + ", h="@ + self.height@ + ")"@,
    {
        let mut r = String::new();
        r.append("Riser (d=");
        r.append(self.diameter.as_str());
        r.append(", h=");
        r.append(self.height.as_str());
        r.append(")");
        assert(r@ =~= "Riser (d="@ + self.diameter@ + ", h="@ + self.height@ + ")"@);
        r
    }

    pub fn params(&self) -> (v: Vec<ParamSpec>)
        ensures
            v@.len() == 8,
            is_length(v@[0], "x"@, "Centre X"@, self.x@),
            is_length(v@[1], "y"@, "Centre Y"@, self.y@),
            is_length(v@[2], "base_z"@, "Base Z"@, self.base_z@),
            is_length(v@[3], "diameter"@, "Riser diameter"@, self.diameter@),
            is_length(v@[4], "height"@, "Riser height"@, self.height@),
            is_length(v@[5], "neck_diameter"@, "Neck diameter"@, self.neck_diameter@),
            is_length(v@[6], "neck_length"@, "Neck length"@, self.neck_length@),
            is_flag(v@[7], "blind"@, "Blind (domed top)"@, self.blind),
    {
        vec![
            ParamSpec::length("x", "Centre X", self.x.as_str()),
            ParamSpec::length("y", "Centre Y", self.y.as_str()),
            ParamSpec::length("base_z", "Base Z", self.base_z.as_str()),
            ParamSpec::length("diameter", "Riser diameter", self.diameter.as_str()),
            ParamSpec::length("height", "Riser height", self.height.as_str()),
            ParamSpec::length("neck_diameter", "Neck diameter", self.neck_diameter.as_str()),
            ParamSpec::length("neck_length", "Neck length", self.neck_length.as_str()),
            ParamSpec::boolean("blind", "Blind (domed top)", self.blind),
        ]
    }

    /// Sets parameter `name`; an unknown name, or a value of the wrong
    /// kind, changes nothing and is an error.
    pub fn set_param(&mut self, name: &str, value: ParamValue) -> (r: Result<(), String>)
        ensures
            if name@ == "x"@ {
                match value {
                    ParamValue::Expr(x) => r is Ok && *final(self) == (RiserFeature { x: x, ..*old(self) }),
                    _ => unknown_param(r, name@) && *final(self) == *old(self),
                }
            } else if name@ == "y"@ {
                match value {
                    ParamValue::Expr(x) => r is Ok && *final(self) == (RiserFeature { y: x, ..*old(self) }),
                    _ => unknown_param(r, name@) && *final(self) == *old(self),
                }
            } else if name@ == "base_z"@ {
                match value {
                    ParamValue::Expr(x) => r is Ok && *final(self) == (RiserFeature { base_z: x, ..*old(self) }),
                    _ => unknown_param(r, name@) && *final(self) == *old(self),
                }
            } else if name@ == "diameter"@ {
                match value {
                    ParamValue::Expr(x) => r is Ok && *final(self) == (RiserFeature { diameter: x, ..*old(self) }),
                    _ => unknown_param(r, name@) && *final(self) == *old(self),
                }
            } else if name@ == "height"@ {
                match value {
                    ParamValue::Expr(x) => r is Ok && *final(self) == (RiserFeature { height: x, ..*old(self) }),
                    _ => unknown_param(r, name@) && *final(self) == *old(self),
                }
            } else if name@ == "neck_diameter"@ {
                match value {
                    ParamValue::Expr(x) => r is Ok && *final(self) == (RiserFeature { neck_diameter: x, ..*old(self) }),
                    _ => unknown_param(r, name@) && *final(self) == *old(self),
                }
            } else if name@ == "neck_length"@ {
                match value {
                    ParamValue::Expr(x) => r is Ok && *final(self) == (RiserFeature { neck_length: x, ..*old(self) }),
                    _ => unknown_param(r, name@) && *final(self) == *old(self),
                }
            } else if name@ == "blind"@ {
                match value {
                    ParamValue::Bool(x) => r is Ok && *final(self) == (RiserFeature { blind: x, ..*old(self) }),
                    _ => unknown_param(r, name@) && *final(self) == *old(self),
                }
            } else {
                unknown_param(r, name@) && *final(self) == *old(self)
            },
    {
        if str_eq(name, "x") {
            if let ParamValue::Expr(x) = value {
                self.x = x;
                return Ok(());
            }
        } else if str_eq(name, "y") {
            if let ParamValue::Expr(x) = value {
                self.y = x;
                return Ok(());
            }
        } else if str_eq(name, "base_z") {
            if let ParamValue::Expr(x) = value {
                self.base_z = x;
                return Ok(());
            }
        } else if str_eq(name, "diameter") {
            if let ParamValue::Expr(x) = value {
                self.diameter = x;
                return Ok(());
            }
        } else if str_eq(name, "height") {
            if let ParamValue::Expr(x) = value {
                self.height = x;
                return Ok(());
            }
        } else if str_eq(name, "neck_diameter") {
            if let ParamValue::Expr(x) = value {
                self.neck_diameter = x;
                return Ok(());
            }
        } else if str_eq(name, "neck_length") {
            if let ParamValue::Expr(x) = value {
                self.neck_length = x;
                return Ok(());
            }
        } else if str_eq(name, "blind") {
            if let ParamValue::Bool(x) = value {
                self.blind = x;
                return Ok(());
            }
        }
        Err(unknown_parameter(name))
    }
}

/// Checks that every face of a body can be drawn out of the mold in the pull
/// direction. It changes nothing; it reports the undercut and low draft
/// area in its note.
#[derive(Clone, Debug)]
pub struct DraftCheckFeature {
    pub body: usize,
    pub pull: String,
    pub min_draft: String,
}

impl Default for DraftCheckFeature {
    fn default() -> (f: DraftCheckFeature)
        ensures
            f.body == 1,
            f.pull@ == "Z"@,
            f.min_draft@ == "1"@,
    {
        DraftCheckFeature {
            body: 1,
            pull: owned("Z"),
            min_draft: owned("1"),
        }
    }
}

impl DraftCheckFeature {
    pub fn kind(&self) -> (r: &'static str)
        ensures
            r@ == "draft_check"@,
    {
        "draft_check"
    }

    pub fn name(&self) -> (r: String)
        ensures
            r@ == "Draft check (pull "@ + self.pull@ + ")"@,
    {
        let mut r = String::new();
        r.append("Draft check (pull ");
        r.append(self.pull.as_str());
        r.append(")");
        assert(r@ =~= "Draft check (pull "@ + self.pull@ + ")"@);
        r
    }

    pub fn params(&self) -> (v: Vec<ParamSpec>)
        ensures
            v@.len() == 3,
            is_ref(v@[0], "body"@, "Body"@, body_type_list(), self.body),
            is_choice(v@[1], "pull"@, "Pull direction"@, seq!["X"@, "Y"@, "Z"@, "-X"@, "-Y"@, "-Z"@], self.pull@),
            is_angle(v@[2], "min_draft"@, "Minimum draft angle"@, self.min_draft@),
    {
        let o0 = vec!["X", "Y", "Z", "-X", "-Y", "-Z"];
        assert(names_of(o0@) =~= seq!["X"@, "Y"@, "Z"@, "-X"@, "-Y"@, "-Z"@]);
        vec![
            ParamSpec::feature_ref("body", "Body", body_types(), self.body),
            ParamSpec::choice("pull", "Pull direction", o0, self.pull.as_str()),
            ParamSpec::angle("min_draft", "Minimum draft angle", self.min_draft.as_str()),
        ]
    }

    /// Sets parameter `name`; an unknown name, or a value of the wrong
    /// kind, changes nothing and is an error.
    pub fn set_param(&mut self, name: &str, value: ParamValue) -> (r: Result<(), String>)
        ensures
            if name@ == "body"@ {
                match value {
                    ParamValue::FeatureRef(x) => r is Ok && *final(self) == (DraftCheckFeature { body: x, ..*old(self) }),
                    _ => unknown_param(r, name@) && *final(self) == *old(self),
                }
            } else if name@ == "pull"@ {
                match value {
                    ParamValue::Choice(x) => r is Ok && *final(self) == (DraftCheckFeature { pull: x, ..*old(self) }),
                    _ => unknown_param(r, name@) && *final(self) == *old(self),
                }
            } else if name@ == "min_draft"@ {
                match value {
                    ParamValue::Expr(x) => r is Ok && *final(self) == (DraftCheckFeature { min_draft: x, ..*old(self) }),
                    _ => unknown_param(r, name@) && *final(self) == *old(self),
                }
            } else {
                unknown_param(r, name@) && *final(self) == *old(self)
            },
    {
        if str_eq(name, "body") {
            if let ParamValue::FeatureRef(x) = value {
                self.body = x;
                return Ok(());
            }
        } else if str_eq(name, "pull") {
            if let ParamValue::Choice(x) = value {
                self.pull = x;
                return Ok(());
            }
        } else if str_eq(name, "min_draft") {
            if let ParamValue::Expr(x) = value {
                self.min_draft = x;
                return Ok(());
            }
        }
        Err(unknown_parameter(name))
    }

    /// Follows a renumbering of the document's features: each feature
    /// reference moves with its feature; one whose feature is gone is
    /// named as broken and set to the deleted mark `usize::MAX`.
    pub fn remap_refs(&mut self, m: &Renumber) -> (broken: Vec<&'static str>)
        ensures
            *final(self) == (DraftCheckFeature { body: moved_ref(*m, old(self).body), ..*old(self) }),
            broken@.map_values(|s: &'static str| s@) == (if renumbered(*m, old(self).body) is None { seq!["body"@] } else { Seq::empty() }),
    {
        let ghost o = *self;
        let mut broken: Vec<&'static str> = Vec::new();
        match renumber(m, self.body) {
            Some(n) => {
                self.body = n;
            },
            None => {
                broken.push("body");
                self.body = usize::MAX;
            },
        }
        assert(broken@.map_values(|s: &'static str| s@) =~= (if renumbered(*m, o.body) is None { seq!["body"@] } else { Seq::empty() }));
        broken
    }
}

/// Checks a casting against its alloy: freeze time by Chvorinov's rule, the
/// gating ratio, and the riser modulus rule. Nothing is changed; the result
/// is the feature note.
#[derive(Clone, Debug)]
pub struct CastingCheckFeature {
    pub casting: usize,
    pub alloy: String,
    pub pour_temp: String,
    pub mold_constant: String,
    pub measured_freeze: String,
    pub has_sprue: bool,
    pub sprue: usize,
    pub choke_diameter: String,
    pub has_riser: bool,
    pub riser: usize,
}

impl Default for CastingCheckFeature {
    fn default() -> (f: CastingCheckFeature)
        ensures
            f.casting == 1,
            f.alloy@ == "grey cast iron"@,
            f.pour_temp@ == "1400"@,
            f.mold_constant@ == "0"@,
            f.measured_freeze@ == "0"@,
            !f.has_sprue,
            f.sprue == 0,
            f.choke_diameter@ == "12"@,
            !f.has_riser,
            f.riser == 0,
    {
        CastingCheckFeature {
            casting: 1,
            alloy: owned("grey cast iron"),
            pour_temp: owned("1400"),
            mold_constant: owned("0"),
            measured_freeze: owned("0"),
            has_sprue: false,
            sprue: 0,
            choke_diameter: owned("12"),
            has_riser: false,
            riser: 0,
        }
    }
}

impl CastingCheckFeature {
    pub fn kind(&self) -> (r: &'static str)
        ensures
            r@ == "casting_check"@,
    {
        "casting_check"
    }

    pub fn name(&self) -> (r: String)
        ensures
            r@ == "Casting check ("@ + self.alloy@ + ")"@,
    {
        let mut r = String::new();
        r.append("Casting check (");
        r.append(self.alloy.as_str());
        r.append(")");
        assert(r@ =~= "Casting check ("@ + self.alloy@ + ")"@);
        r
    }

    pub fn params(&self) -> (v: Vec<ParamSpec>)
        ensures
            v@.len() == 7 + (if self.has_sprue { 2int } else { 0int }) + (if self.has_riser { 1int } else { 0int }),
            is_ref(v@[0], "casting"@, "Casting body"@, body_type_list(), self.casting),
            is_choice(v@[1], "alloy"@, "Alloy"@, alloy_name_list(), self.alloy@),
            is_length(v@[2], "pour_temp"@, "Pouring temperature (C)"@, self.pour_temp@),
            is_length(v@[3], "mold_constant"@, "Mold constant s/mm2 (0 = alloy default)"@, self.mold_constant@),
            is_length(v@[4], "measured_freeze"@, "Measured freeze time s (0 = none)"@, self.measured_freeze@),
            is_flag(v@[5], "has_sprue"@, "Check a sprue"@, self.has_sprue),
            self.has_sprue ==> is_ref(v@[6], "sprue"@, "Sprue"@, seq!["sprue"@], self.sprue),
            self.has_sprue ==> is_length(v@[7], "choke_diameter"@, "Choke diameter"@, self.choke_diameter@),
            is_flag(v@[6 + (if self.has_sprue { 2int } else { 0int })], "has_riser"@, "Check a riser"@, self.has_riser),
            self.has_riser ==> is_ref(v@[7 + (if self.has_sprue { 2int } else { 0int })], "riser"@, "Riser"@, seq!["riser"@], self.riser),
    {
        let o0 = vec!["sprue"];
        assert(names_of(o0@) =~= seq!["sprue"@]);
        let o1 = vec!["riser"];
        assert(names_of(o1@) =~= seq!["riser"@]);
        let mut v = vec![
            ParamSpec::feature_ref("casting", "Casting body", body_types(), self.casting),
            ParamSpec::choice("alloy", "Alloy", alloy_names(), self.alloy.as_str()),
            ParamSpec::length("pour_temp", "Pouring temperature (C)", self.pour_temp.as_str()),
            ParamSpec::length("mold_constant", "Mold constant s/mm2 (0 = alloy default)", self.mold_constant.as_str()),
            ParamSpec::length("measured_freeze", "Measured freeze time s (0 = none)", self.measured_freeze.as_str()),
            ParamSpec::boolean("has_sprue", "Check a sprue", self.has_sprue),
        ];
        if self.has_sprue {
            v.push(ParamSpec::feature_ref("sprue", "Sprue", o0, self.sprue));
            v.push(ParamSpec::length("choke_diameter", "Choke diameter", self.choke_diameter.as_str()));
        }
        v.push(ParamSpec::boolean("has_riser", "Check a riser", self.has_riser));
        if self.has_riser {
            v.push(ParamSpec::feature_ref("riser", "Riser", o1, self.riser));
        }
        v
    }

    /// Sets parameter `name`; an unknown name, or a value of the wrong
    /// kind, changes nothing and is an error.
    pub fn set_param(&mut self, name: &str, value: ParamValue) -> (r: Result<(), String>)
        ensures
            if name@ == "casting"@ {
                match value {
                    ParamValue::FeatureRef(x) => r is Ok && *final(self) == (CastingCheckFeature { casting: x, ..*old(self) }),
                    _ => unknown_param(r, name@) && *final(self) == *old(self),
                }
            } else if name@ == "alloy"@ {
                match value {
                    ParamValue::Choice(x) => r is Ok && *final(self) == (CastingCheckFeature { alloy: x, ..*old(self) }),
                    _ => unknown_param(r, name@) && *final(self) == *old(self),
                }
            } else if name@ == "pour_temp"@ {
                match value {
                    ParamValue::Expr(x) => r is Ok && *final(self) == (CastingCheckFeature { pour_temp: x, ..*old(self) }),
                    _ => unknown_param(r, name@) && *final(self) == *old(self),
                }
            } else if name@ == "mold_constant"@ {
                match value {
                    ParamValue::Expr(x) => r is Ok && *final(self) == (CastingCheckFeature { mold_constant: x, ..*old(self) }),
                    _ => unknown_param(r, name@) && *final(self) == *old(self),
                }
            } else if name@ == "measured_freeze"@ {
                match value {
                    ParamValue::Expr(x) => r is Ok && *final(self) == (CastingCheckFeature { measured_freeze: x, ..*old(self) }),
                    _ => unknown_param(r, name@) && *final(self) == *old(self),
                }
            } else if name@ == "has_sprue"@ {
                match value {
                    ParamValue::Bool(x) => r is Ok && *final(self) == (CastingCheckFeature { has_sprue: x, ..*old(self) }),
                    _ => unknown_param(r, name@) && *final(self) == *old(self),
                }
            } else if name@ == "sprue"@ {
                match value {
                    ParamValue::FeatureRef(x) => r is Ok && *final(self) == (CastingCheckFeature { sprue: x, ..*old(self) }),
                    _ => unknown_param(r, name@) && *final(self) == *old(self),
                }
            } else if name@ == "choke_diameter"@ {
                match value {
                    ParamValue::Expr(x) => r is Ok && *final(self) == (CastingCheckFeature { choke_diameter: x, ..*old(self) }),
                    _ => unknown_param(r, name@) && *final(self) == *old(self),
                }
            } else if name@ == "has_riser"@ {
                match value {
                    ParamValue::Bool(x) => r is Ok && *final(self) == (CastingCheckFeature { has_riser: x, ..*old(self) }),
                    _ => unknown_param(r, name@) && *final(self) == *old(self),
                }
            } else if name@ == "riser"@ {
                match value {
                    ParamValue::FeatureRef(x) => r is Ok && *final(self) == (CastingCheckFeature { riser: x, ..*old(self) }),
                    _ => unknown_param(r, name@) && *final(self) == *old(self),
                }
            } else {
                unknown_param(r, name@) && *final(self) == *old(self)
            },
    {
        if str_eq(name, "casting") {
            if let ParamValue::FeatureRef(x) = value {
                self.casting = x;
                return Ok(());
            }
        } else if str_eq(name, "alloy") {
            if let ParamValue::Choice(x) = value {
                self.alloy = x;
                return Ok(());
            }
        } else if str_eq(name, "pour_temp") {
            if let ParamValue::Expr(x) = value {
                self.pour_temp = x;
                return Ok(());
            }
        } else if str_eq(name, "mold_constant") {
            if let ParamValue::Expr(x) = value {
                self.mold_constant = x;
                return Ok(());
            }
        } else if str_eq(name, "measured_freeze") {
            if let ParamValue::Expr(x) = value {
                self.measured_freeze = x;
                return Ok(());
            }
        } else if str_eq(name, "has_sprue") {
            if let ParamValue::Bool(x) = value {
                self.has_sprue = x;
                return Ok(());
            }
        } else if str_eq(name, "sprue") {
            if let ParamValue::FeatureRef(x) = value {
                self.sprue = x;
                return Ok(());
            }
        } else if str_eq(name, "choke_diameter") {
            if let ParamValue::Expr(x) = value {
                self.choke_diameter = x;
                return Ok(());
            }
        } else if str_eq(name, "has_riser") {
            if let ParamValue::Bool(x) = value {
                self.has_riser = x;
                return Ok(());
            }
        } else if str_eq(name, "riser") {
            if let ParamValue::FeatureRef(x) = value {
                self.riser = x;
                return Ok(());
            }
        }
        Err(unknown_parameter(name))
    }

    /// Follows a renumbering of the document's features: each feature
    /// reference moves with its feature; one whose feature is gone is
    /// named as broken and set to the deleted mark `usize::MAX`.
    pub fn remap_refs(&mut self, m: &Renumber) -> (broken: Vec<&'static str>)
        ensures
            *final(self) == (CastingCheckFeature { casting: moved_ref(*m, old(self).casting), sprue: if old(self).has_sprue { moved_ref(*m, old(self).sprue) } else { old(self).sprue }, riser: if old(self).has_riser { moved_ref(*m, old(self).riser) } else { old(self).riser }, ..*old(self) }),
            broken@.map_values(|s: &'static str| s@) == (if renumbered(*m, old(self).casting) is None { seq!["casting"@] } else { Seq::empty() }) + (if old(self).has_sprue && renumbered(*m, old(self).sprue) is None { seq!["sprue"@] } else { Seq::empty() }) + (if old(self).has_riser && renumbered(*m, old(self).riser) is None { seq!["riser"@] } else { Seq::empty() }),
    {
        let ghost o = *self;
        let mut broken: Vec<&'static str> = Vec::new();
        match renumber(m, self.casting) {
            Some(n) => {
                self.casting = n;
            },
            None => {
                broken.push("casting");
                self.casting = usize::MAX;
            },
        }
        if self.has_sprue {
            match renumber(m, self.sprue) {
                Some(n) => {
                    self.sprue = n;
                },
                None => {
                    broken.push("sprue");
                    self.sprue = usize::MAX;
                },
            }
        }
        if self.has_riser {
            match renumber(m, self.riser) {
                Some(n) => {
                    self.riser = n;
                },
                None => {
                    broken.push("riser");
                    self.riser = usize::MAX;
                },
            }
        }
        assert(broken@.map_values(|s: &'static str| s@) =~= (if renumbered(*m, o.casting) is None { seq!["casting"@] } else { Seq::empty() }) + (if o.has_sprue && renumbered(*m, o.sprue) is None { seq!["sprue"@] } else { Seq::empty() }) + (if o.has_riser && renumbered(*m, o.riser) is None { seq!["riser"@] } else { Seq::empty() }));
        broken
    }
}

} // verus!
