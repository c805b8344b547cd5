//! Aircraft: a fuselage, a lofted wing, a tailplane, and a fin as one body.

use vstd::prelude::*;
use crate::param::{is_angle, is_flag, is_length, is_text, spec, unknown_param, unknown_parameter, ParamSpec, ParamValue};
use crate::text::{owned, str_eq};

verus! {

/// Face tags of the aircraft's parts.
pub const TAG_FUSELAGE: u32 = 1;
pub const TAG_WING: u32 = 2;
pub const TAG_TAIL: u32 = 3;
pub const TAG_FIN: u32 = 4;

/// The part a face tag names.
pub fn tag_name(tag: u32) -> (r: &'static str)
    ensures
        r@ == if tag == TAG_FUSELAGE {
            "fuselage"@
        } else if tag == TAG_WING {
            "wing"@
        } else if tag == TAG_TAIL {
            "tail"@
        } else if tag == TAG_FIN {
            "fin"@
        } else {
            "body"@
        },
{
    if tag == TAG_FUSELAGE {
        "fuselage"
    } else if tag == TAG_WING {
        "wing"
    } else if tag == TAG_TAIL {
        "tail"
    } else if tag == TAG_FIN {
        "fin"
    } else {
        "body"
    }
}

/// The trailing edge thickness of a document that does not give one.
pub fn te_default() -> (r: String)
    ensures
        r@ == "0.8"@,
{
    owned("0.8")
}

/// A fuselage, a lofted wing, a tailplane and a fin as one body, with a
/// lifting line estimate of lift and drag.
#[derive(Clone, Debug)]
pub struct AircraftFeature {
    pub fuselage_length: String,
    pub fuselage_diameter: String,
    /// Wing leading edge position along the fuselage from the nose.
    pub wing_x: String,
    pub span: String,
    pub root_chord: String,
    pub tip_chord: String,
    pub sweep: String,
    pub dihedral: String,
    pub twist_root: String,
    pub twist_tip: String,
    pub airfoil_root: String,
    pub airfoil_tip: String,
    pub tail_span: String,
    pub tail_chord: String,
    pub fin_height: String,
    pub fin_chord: String,
    /// Smooth union radius between wing and fuselage.
    pub blend: String,
    /// Trailing edge thickness of every surface (mm); 0 for sharp edges.
    pub te_thickness: String,
    pub resolution: String,
    /// Design lift coefficient and speed (m/s) for the estimate.
    pub cl_design: String,
    pub speed: String,
    /// Replace taper and tip twist with the best found for lift to drag.
    pub optimize: bool,
}

impl Default for AircraftFeature {
    fn default() -> (f: AircraftFeature)
        ensures
            f.fuselage_length@ == "160"@,
            f.fuselage_diameter@ == "18"@,
            f.wing_x@ == "55"@,
            f.span@ == "180"@,
            f.root_chord@ == "30"@,
            f.tip_chord@ == "15"@,
            f.sweep@ == "8"@,
            f.dihedral@ == "4"@,
            f.twist_root@ == "2"@,
            f.twist_tip@ == "-1"@,
            f.airfoil_root@ == "2412"@,
            f.airfoil_tip@ == "0012"@,
            f.tail_span@ == "60"@,
            f.tail_chord@ == "14"@,
            f.fin_height@ == "28"@,
            f.fin_chord@ == "16"@,
            f.blend@ == "4"@,
            f.te_thickness@ == "0.8"@,
            f.resolution@ == "0.6"@,
            f.cl_design@ == "0.5"@,
            f.speed@ == "20"@,
            !f.optimize,
    {
        AircraftFeature {
            fuselage_length: owned("160"),
            fuselage_diameter: owned("18"),
            wing_x: owned("55"),
            span: owned("180"),
            root_chord: owned("30"),
            tip_chord: owned("15"),
            sweep: owned("8"),
            dihedral: owned("4"),
            twist_root: owned("2"),
            twist_tip: owned("-1"),
            airfoil_root: owned("2412"),
            airfoil_tip: owned("0012"),
            tail_span: owned("60"),
            tail_chord: owned("14"),
            fin_height: owned("28"),
            fin_chord: owned("16"),
            blend: owned("4"),
            te_thickness: owned("0.8"),
            resolution: owned("0.6"),
            cl_design: owned("0.5"),
            speed: owned("20"),
            optimize: false,
        }
    }
}

impl AircraftFeature {
    pub fn kind(&self) -> (r: &'static str)
        ensures
            r@ == "aircraft"@,
    {
        "aircraft"
    }

    pub fn name(&self) -> (r: String)
        ensures
            r@ == "Aircraft (span "@ + self.span@ + ", NACA "@ + self.airfoil_root@ + ")"@,
    {
        let mut r = String::new();
        r.append("Aircraft (span ");
        r.append(self.span.as_str());
        r.append(", NACA ");
        r.append(self.airfoil_root.as_str());
        r.append(")");
        assert(r@ =~= "Aircraft (span "@ + self.span@ + ", NACA "@ + self.airfoil_root@ + ")"@);
        r
    }

    pub fn params(&self) -> (v: Vec<ParamSpec>)
        ensures
            v@.len() == 22,
            is_length(v@[0], "fuselage_length"@, "Fuselage length"@, self.fuselage_length@),
            is_length(v@[1], "fuselage_diameter"@, "Fuselage diameter"@, self.fuselage_diameter@),
            is_length(v@[2], "wing_x"@, "Wing position from nose"@, self.wing_x@),
            is_length(v@[3], "span"@, "Span"@, self.span@),
            is_length(v@[4], "root_chord"@, "Root chord"@, self.root_chord@),
            is_length(v@[5], "tip_chord"@, "Tip chord"@, self.tip_chord@),
            is_angle(v@[6], "sweep"@, "Leading edge sweep"@, self.sweep@),
            is_angle(v@[7], "dihedral"@, "Dihedral"@, self.dihedral@),
            is_angle(v@[8], "twist_root"@, "Root incidence"@, self.twist_root@),
            is_angle(v@[9], "twist_tip"@, "Tip twist"@, self.twist_tip@),
            is_text(v@[10], "airfoil_root"@, "Root airfoil (NACA 4 digit)"@, self.airfoil_root@),
            is_text(v@[11], "airfoil_tip"@, "Tip airfoil (NACA 4 digit)"@, self.airfoil_tip@),
            is_length(v@[12], "tail_span"@, "Tailplane span"@, self.tail_span@),
            is_length(v@[13], "tail_chord"@, "Tailplane chord"@, self.tail_chord@),
            is_length(v@[14], "fin_height"@, "Fin height"@, self.fin_height@),
            is_length(v@[15], "fin_chord"@, "Fin chord"@, self.fin_chord@),
            is_length(v@[16], "blend"@, "Wing to body blend"@, self.blend@),
            is_length(v@[17], "te_thickness"@, "Trailing edge thickness"@, self.te_thickness@),
            is_length(v@[18], "resolution"@, "Resolution"@, self.resolution@),
            is_length(v@[19], "cl_design"@, "Design lift coefficient"@, self.cl_design@),
            is_length(v@[20], "speed"@, "Speed (m/s)"@, self.speed@),
            is_flag(v@[21], "optimize"@, "Optimise taper and twist"@, self.optimize),
    {
        vec![
            ParamSpec::length("fuselage_length", "Fuselage length", self.fuselage_length.as_str()),
            ParamSpec::length("fuselage_diameter", "Fuselage diameter", self.fuselage_diameter.as_str()),
            ParamSpec::length("wing_x", "Wing position from nose", self.wing_x.as_str()),
            ParamSpec::length("span", "Span", self.span.as_str()),
            ParamSpec::length("root_chord", "Root chord", self.root_chord.as_str()),
            ParamSpec::length("tip_chord", "Tip chord", self.tip_chord.as_str()),
            ParamSpec::angle("sweep", "Leading edge sweep", self.sweep.as_str()),
            ParamSpec::angle("dihedral", "Dihedral", self.dihedral.as_str()),
            ParamSpec::angle("twist_root", "Root incidence", self.twist_root.as_str()),
            ParamSpec::angle("twist_tip", "Tip twist", self.twist_tip.as_str()),
            spec("airfoil_root", "Root airfoil (NACA 4 digit)", self.airfoil_root.as_str()),
            spec("airfoil_tip", "Tip airfoil (NACA 4 digit)", self.airfoil_tip.as_str()),
            ParamSpec::length("tail_span", "Tailplane span", self.tail_span.as_str()),
            ParamSpec::length("tail_chord", "Tailplane chord", self.tail_chord.as_str()),
            ParamSpec::length("fin_height", "Fin height", self.fin_height.as_str()),
            ParamSpec::length("fin_chord", "Fin chord", self.fin_chord.as_str()),
            ParamSpec::length("blend", "Wing to body blend", self.blend.as_str()),
            ParamSpec::length("te_thickness", "Trailing edge thickness", self.te_thickness.as_str()),
            ParamSpec::length("resolution", "Resolution", self.resolution.as_str()),
            ParamSpec::length("cl_design", "Design lift coefficient", self.cl_design.as_str()),
            ParamSpec::length("speed", "Speed (m/s)", self.speed.as_str()),
            ParamSpec::boolean("optimize", "Optimise taper and twist", self.optimize),
        ]
    }

    /// Sets parameter `name`; an unknown name, or a value of the wrong
    /// kind, changes nothing and is an error.
    pub fn set_param(&mut self, name: &str, value: ParamValue) -> (r: Result<(), String>)
        ensures
            if name@ == "optimize"@ {
                match value {
                    ParamValue::Bool(x) => r is Ok && *final(self) == (AircraftFeature { optimize: x, ..*old(self) }),
                    _ => unknown_param(r, name@) && *final(self) == *old(self),
                }
            } else if name@ == "fuselage_length"@ {
                match value {
                    ParamValue::Expr(x) => r is Ok && *final(self) == (AircraftFeature { fuselage_length: x, ..*old(self) }),
                    _ => unknown_param(r, name@) && *final(self) == *old(self),
                }
            } else if name@ == "fuselage_diameter"@ {
                match value {
                    ParamValue::Expr(x) => r is Ok && *final(self) == (AircraftFeature { fuselage_diameter: x, ..*old(self) }),
                    _ => unknown_param(r, name@) && *final(self) == *old(self),
                }
            } else if name@ == "wing_x"@ {
                match value {
                    ParamValue::Expr(x) => r is Ok && *final(self) == (AircraftFeature { wing_x: x, ..*old(self) }),
                    _ => unknown_param(r, name@) && *final(self) == *old(self),
                }
            } else if name@ == "span"@ {
                match value {
                    ParamValue::Expr(x) => r is Ok && *final(self) == (AircraftFeature { span: x, ..*old(self) }),
                    _ => unknown_param(r, name@) && *final(self) == *old(self),
                }
            } else if name@ == "root_chord"@ {
                match value {
                    ParamValue::Expr(x) => r is Ok && *final(self) == (AircraftFeature { root_chord: x, ..*old(self) }),
                    _ => unknown_param(r, name@) && *final(self) == *old(self),
                }
            } else if name@ == "tip_chord"@ {
                match value {
                    ParamValue::Expr(x) => r is Ok && *final(self) == (AircraftFeature { tip_chord: x, ..*old(self) }),
                    _ => unknown_param(r, name@) && *final(self) == *old(self),
                }
            } else if name@ == "sweep"@ {
                match value {
                    ParamValue::Expr(x) => r is Ok && *final(self) == (AircraftFeature { sweep: x, ..*old(self) }),
                    _ => unknown_param(r, name@) && *final(self) == *old(self),
                }
            } else if name@ == "dihedral"@ {
                match value {
                    ParamValue::Expr(x) => r is Ok && *final(self) == (AircraftFeature { dihedral: x, ..*old(self) }),
                    _ => unknown_param(r, name@) && *final(self) == *old(self),
                }
            } else if name@ == "twist_root"@ {
                match value {
                    ParamValue::Expr(x) => r is Ok && *final(self) == (AircraftFeature { twist_root: x, ..*old(self) }),
                    _ => unknown_param(r, name@) && *final(self) == *old(self),
                }
            } else if name@ == "twist_tip"@ {
                match value {
                    ParamValue::Expr(x) => r is Ok && *final(self) == (AircraftFeature { twist_tip: x, ..*old(self) }),
                    _ => unknown_param(r, name@) && *final(self) == *old(self),
                }
            } else if name@ == "airfoil_root"@ {
                match value {
                    ParamValue::Expr(x) => r is Ok && *final(self) == (AircraftFeature { airfoil_root: x, ..*old(self) }),
                    _ => unknown_param(r, name@) && *final(self) == *old(self),
                }
            } else if name@ == "airfoil_tip"@ {
                match value {
                    ParamValue::Expr(x) => r is Ok && *final(self) == (AircraftFeature { airfoil_tip: x, ..*old(self) }),
                    _ => unknown_param(r, name@) && *final(self) == *old(self),
                }
            } else if name@ == "tail_span"@ {
                match value {
                    ParamValue::Expr(x) => r is Ok && *final(self) == (AircraftFeature { tail_span: x, ..*old(self) }),
                    _ => unknown_param(r, name@) && *final(self) == *old(self),
                }
            } else if name@ == "tail_chord"@ {
                match value {
                    ParamValue::Expr(x) => r is Ok && *final(self) == (AircraftFeature { tail_chord: x, ..*old(self) }),
                    _ => unknown_param(r, name@) && *final(self) == *old(self),
                }
            } else if name@ == "fin_height"@ {
                match value {
                    ParamValue::Expr(x) => r is Ok && *final(self) == (AircraftFeature { fin_height: x, ..*old(self) }),
                    _ => unknown_param(r, name@) && *final(self) == *old(self),
                }
            } else if name@ == "fin_chord"@ {
                match value {
                    ParamValue::Expr(x) => r is Ok && *final(self) == (AircraftFeature { fin_chord: x, ..*old(self) }),
                    _ => unknown_param(r, name@) && *final(self) == *old(self),
                }
            } else if name@ == "blend"@ {
                match value {
                    ParamValue::Expr(x) => r is Ok && *final(self) == (AircraftFeature { blend: x, ..*old(self) }),
                    _ => unknown_param(r, name@) && *final(self) == *old(self),
                }
            } else if name@ == "te_thickness"@ {
                match value {
                    ParamValue::Expr(x) => r is Ok && *final(self) == (AircraftFeature { te_thickness: x, ..*old(self) }),
                    _ => unknown_param(r, name@) && *final(self) == *old(self),
                }
            } else if name@ == "resolution"@ {
                match value {
                    ParamValue::Expr(x) => r is Ok && *final(self) == (AircraftFeature { resolution: x, ..*old(self) }),
                    _ => unknown_param(r, name@) && *final(self) == *old(self),
                }
            } else if name@ == "cl_design"@ {
                match value {
                    ParamValue::Expr(x) => r is Ok && *final(self) == (AircraftFeature { cl_design: x, ..*old(self) }),
                    _ => unknown_param(r, name@) && *final(self) == *old(self),
                }
            } else if name@ == "speed"@ {
                match value {
                    ParamValue::Expr(x) => r is Ok && *final(self) == (AircraftFeature { speed: x, ..*old(self) }),
                    _ => unknown_param(r, name@) && *final(self) == *old(self),
                }
            } else {
                unknown_param(r, name@) && *final(self) == *old(self)
            },
    {
        if str_eq(name, "optimize") {
            if let ParamValue::Bool(x) = value {
                self.optimize = x;
                return Ok(());
            }
        } else if str_eq(name, "fuselage_length") {
            if let ParamValue::Expr(x) = value {
                self.fuselage_length = x;
                return Ok(());
            }
        } else if str_eq(name, "fuselage_diameter") {
            if let ParamValue::Expr(x) = value {
                self.fuselage_diameter = x;
                return Ok(());
            }
        } else if str_eq(name, "wing_x") {
            if let ParamValue::Expr(x) = value {
                self.wing_x = x;
                return Ok(());
            }
        } else if str_eq(name, "span") {
            if let ParamValue::Expr(x) = value {
                self.span = x;
                return Ok(());
            }
        } else if str_eq(name, "root_chord") {
            if let ParamValue::Expr(x) = value {
                self.root_chord = x;
                return Ok(());
            }
        } else if str_eq(name, "tip_chord") {
            if let ParamValue::Expr(x) = value {
                self.tip_chord = x;
                return Ok(());
            }
        } else if str_eq(name, "sweep") {
            if let ParamValue::Expr(x) = value {
                self.sweep = x;
                return Ok(());
            }
        } else if str_eq(name, "dihedral") {
            if let ParamValue::Expr(x) = value {
                self.dihedral = x;
                return Ok(());
            }
        } else if str_eq(name, "twist_root") {
            if let ParamValue::Expr(x) = value {
                self.twist_root = x;
                return Ok(());
            }
        } else if str_eq(name, "twist_tip") {
            if let ParamValue::Expr(x) = value {
                self.twist_tip = x;
                return Ok(());
            }
        } else if str_eq(name, "airfoil_root") {
            if let ParamValue::Expr(x) = value {
                self.airfoil_root = x;
                return Ok(());
            }
        } else if str_eq(name, "airfoil_tip") {
            if let ParamValue::Expr(x) = value {
                self.airfoil_tip = x;
                return Ok(());
            }
        } else if str_eq(name, "tail_span") {
            if let ParamValue::Expr(x) = value {
                self.tail_span = x;
                return Ok(());
            }
        } else if str_eq(name, "tail_chord") {
            if let ParamValue::Expr(x) = value {
                self.tail_chord = x;
                return Ok(());
            }
        } else if str_eq(name, "fin_height") {
            if let ParamValue::Expr(x) = value {
                self.fin_height = x;
                return Ok(());
            }
        } else if str_eq(name, "fin_chord") {
            if let ParamValue::Expr(x) = value {
                self.fin_chord = x;
                return Ok(());
            }
        } else if str_eq(name, "blend") {
            if let ParamValue::Expr(x) = value {
                self.blend = x;
                return Ok(());
            }
        } else if str_eq(name, "te_thickness") {
            if let ParamValue::Expr(x) = value {
                self.te_thickness = x;
                return Ok(());
            }
        } else if str_eq(name, "resolution") {
            if let ParamValue::Expr(x) = value {
                self.resolution = x;
                return Ok(());
            }
        } else if str_eq(name, "cl_design") {
            if let ParamValue::Expr(x) = value {
                self.cl_design = x;
                return Ok(());
            }
        } else if str_eq(name, "speed") {
            if let ParamValue::Expr(x) = value {
                self.speed = x;
                return Ok(());
            }
        }
        Err(unknown_parameter(name))
    }
}

} // verus!
