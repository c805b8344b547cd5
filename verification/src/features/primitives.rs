//! Primitive solids: Box, Cylinder, Sphere, Torus.

use vstd::prelude::*;
use crate::param::{is_choice, is_length, names_of, unknown_param, unknown_parameter, ParamSpec, ParamValue};
use crate::text::{owned, str_eq};

verus! {

/// An axis aligned box from its corner and sizes.
#[derive(Clone, Debug)]
pub struct BoxFeature {
    pub x: String,
    pub y: String,
    pub z: String,
    pub width: String,
    pub depth: String,
    pub height: String,
}

impl Default for BoxFeature {
    fn default() -> (f: BoxFeature)
        ensures
            f.x@ == "0"@,
            f.y@ == "0"@,
            f.z@ == "0"@,
            f.width@ == "20"@,
            f.depth@ == "20"@,
            f.height@ == "10"@,
    {
        BoxFeature {
            x: owned("0"),
            y: owned("0"),
            z: owned("0"),
            width: owned("20"),
            depth: owned("20"),
            height: owned("10"),
        }
    }
}

impl BoxFeature {
    pub fn kind(&self) -> (r: &'static str)
        ensures
            r@ == "box"@,
    {
        "box"
    }

    pub fn name(&self) -> (r: String)
        ensures
            r@ == "Box ("@ + self.width@ + " x "@ + self.depth@ + " x "@ + self.height@ + ")"@,
    {
        let mut r = String::new();
        r.append("Box (");
        r.append(self.width.as_str());
        r.append(" x ");
        r.append(self.depth.as_str());
        r.append(" x ");
        r.append(self.height.as_str());
        r.append(")");
        assert(r@ =~= "Box ("@ + self.width@ + " x "@ + self.depth@ + " x "@ + self.height@ + ")"@);
        r
    }

    pub fn params(&self) -> (v: Vec<ParamSpec>)
        ensures
            v@.len() == 6,
            is_length(v@[0], "x"@, "Corner X"@, self.x@),
            is_length(v@[1], "y"@, "Corner Y"@, self.y@),
            is_length(v@[2], "z"@, "Corner Z"@, self.z@),
            is_length(v@[3], "width"@, "Width (X)"@, self.width@),
            is_length(v@[4], "depth"@, "Depth (Y)"@, self.depth@),
            is_length(v@[5], "height"@, "Height (Z)"@, self.height@),
    {
        vec![
            ParamSpec::length("x", "Corner X", self.x.as_str()),
            ParamSpec::length("y", "Corner Y", self.y.as_str()),
            ParamSpec::length("z", "Corner Z", self.z.as_str()),
            ParamSpec::length("width", "Width (X)", self.width.as_str()),
            ParamSpec::length("depth", "Depth (Y)", self.depth.as_str()),
            ParamSpec::length("height", "Height (Z)", self.height.as_str()),
        ]
    }

    /// Sets parameter `name`; an unknown name, or a value of the wrong
    /// kind, changes nothing and is an error.
    pub fn set_param(&mut self, name: &str, value: ParamValue) -> (r: Result<(), String>)
        ensures
            if name@ == "x"@ {
                match value {
                    ParamValue::Expr(x) => r is Ok && *final(self) == (BoxFeature { x: x, ..*old(self) }),
                    _ => unknown_param(r, name@) && *final(self) == *old(self),
                }
            } else if name@ == "y"@ {
                match value {
                    ParamValue::Expr(x) => r is Ok && *final(self) == (BoxFeature { y: x, ..*old(self) }),
                    _ => unknown_param(r, name@) && *final(self) == *old(self),
                }
            } else if name@ == "z"@ {
                match value {
                    ParamValue::Expr(x) => r is Ok && *final(self) == (BoxFeature { z: x, ..*old(self) }),
                    _ => unknown_param(r, name@) && *final(self) == *old(self),
                }
            } else if name@ == "width"@ {
                match value {
                    ParamValue::Expr(x) => r is Ok && *final(self) == (BoxFeature { width: x, ..*old(self) }),
                    _ => unknown_param(r, name@) && *final(self) == *old(self),
                }
            } else if name@ == "depth"@ {
                match value {
                    ParamValue::Expr(x) => r is Ok && *final(self) == (BoxFeature { depth: x, ..*old(self) }),
                    _ => unknown_param(r, name@) && *final(self) == *old(self),
                }
            } else if name@ == "height"@ {
                match value {
                    ParamValue::Expr(x) => r is Ok && *final(self) == (BoxFeature { height: x, ..*old(self) }),
                    _ => unknown_param(r, name@) && *final(self) == *old(self),
                }
            } else {
                unknown_param(r, name@) && *final(self) == *old(self)
            },
    {
        if str_eq(name, "x") {
            if let ParamValue::Expr(x) = value {
                self.x = x;
                return Ok(());
            }
        } else if str_eq(name, "y") {
            if let ParamValue::Expr(x) = value {
                self.y = x;
                return Ok(());
            }
        } else if str_eq(name, "z") {
            if let ParamValue::Expr(x) = value {
                self.z = x;
                return Ok(());
            }
        } else if str_eq(name, "width") {
            if let ParamValue::Expr(x) = value {
                self.width = x;
                return Ok(());
            }
        } else if str_eq(name, "depth") {
            if let ParamValue::Expr(x) = value {
                self.depth = x;
                return Ok(());
            }
        } else if str_eq(name, "height") {
            if let ParamValue::Expr(x) = value {
                self.height = x;
                return Ok(());
            }
        }
        Err(unknown_parameter(name))
    }
}

/// A cylinder standing on a datum plane.
#[derive(Clone, Debug)]
pub struct CylinderFeature {
    pub plane: String,
    pub cx: String,
    pub cy: String,
    pub radius: String,
    pub height: String,
}

impl Default for CylinderFeature {
    fn default() -> (f: CylinderFeature)
        ensures
            f.plane@ == "XY"@,
            f.cx@ == "0"@,
            f.cy@ == "0"@,
            f.radius@ == "10"@,
            f.height@ == "20"@,
    {
        CylinderFeature {
            plane: owned("XY"),
            cx: owned("0"),
            cy: owned("0"),
            radius: owned("10"),
            height: owned("20"),
        }
    }
}

impl CylinderFeature {
    pub fn kind(&self) -> (r: &'static str)
        ensures
            r@ == "cylinder"@,
    {
        "cylinder"
    }

    pub fn name(&self) -> (r: String)
        ensures
            r@ == "Cylinder (r="@ + self.radius@ + ", h="@ + self.height@ + ")"@,
    {
        let mut r = String::new();
        r.append("Cylinder (r=");
        r.append(self.radius.as_str());
        r.append(", h=");
        r.append(self.height.as_str());
        r.append(")");
        assert(r@ =~= "Cylinder (r="@ + self.radius@ + ", h="@ + self.height@ + ")"@);
        r
    }

    pub fn params(&self) -> (v: Vec<ParamSpec>)
        ensures
            v@.len() == 5,
            is_choice(v@[0], "plane"@, "Base plane"@, seq!["XY"@, "XZ"@, "YZ"@], self.plane@),
            is_length(v@[1], "cx"@, "Centre X"@, self.cx@),
            is_length(v@[2], "cy"@, "Centre Y"@, self.cy@),
            is_length(v@[3], "radius"@, "Radius"@, self.radius@),
            is_length(v@[4], "height"@, "Height"@, self.height@),
    {
        let o0 = vec!["XY", "XZ", "YZ"];
        assert(names_of(o0@) =~= seq!["XY"@, "XZ"@, "YZ"@]);
        vec![
            ParamSpec::choice("plane", "Base plane", o0, self.plane.as_str()),
            ParamSpec::length("cx", "Centre X", self.cx.as_str()),
            ParamSpec::length("cy", "Centre Y", self.cy.as_str()),
            ParamSpec::length("radius", "Radius", self.radius.as_str()),
            ParamSpec::length("height", "Height", self.height.as_str()),
        ]
    }

    /// Sets parameter `name`; an unknown name, or a value of the wrong
    /// kind, changes nothing and is an error.
    pub fn set_param(&mut self, name: &str, value: ParamValue) -> (r: Result<(), String>)
        ensures
            if name@ == "plane"@ {
                match value {
                    ParamValue::Choice(x) => r is Ok && *final(self) == (CylinderFeature { plane: x, ..*old(self) }),
                    _ => unknown_param(r, name@) && *final(self) == *old(self),
                }
            } else if name@ == "cx"@ {
                match value {
                    ParamValue::Expr(x) => r is Ok && *final(self) == (CylinderFeature { cx: x, ..*old(self) }),
                    _ => unknown_param(r, name@) && *final(self) == *old(self),
                }
            } else if name@ == "cy"@ {
                match value {
                    ParamValue::Expr(x) => r is Ok && *final(self) == (CylinderFeature { cy: x, ..*old(self) }),
                    _ => unknown_param(r, name@) && *final(self) == *old(self),
                }
            } else if name@ == "radius"@ {
                match value {
                    ParamValue::Expr(x) => r is Ok && *final(self) == (CylinderFeature { radius: x, ..*old(self) }),
                    _ => unknown_param(r, name@) && *final(self) == *old(self),
                }
            } else if name@ == "height"@ {
                match value {
                    ParamValue::Expr(x) => r is Ok && *final(self) == (CylinderFeature { height: x, ..*old(self) }),
                    _ => unknown_param(r, name@) && *final(self) == *old(self),
                }
            } else {
                unknown_param(r, name@) && *final(self) == *old(self)
            },
    {
        if str_eq(name, "plane") {
            if let ParamValue::Choice(x) = value {
                self.plane = x;
                return Ok(());
            }
        } else if str_eq(name, "cx") {
            if let ParamValue::Expr(x) = value {
                self.cx = x;
                return Ok(());
            }
        } else if str_eq(name, "cy") {
            if let ParamValue::Expr(x) = value {
                self.cy = x;
                return Ok(());
            }
        } else if str_eq(name, "radius") {
            if let ParamValue::Expr(x) = value {
                self.radius = x;
                return Ok(());
            }
        } else if str_eq(name, "height") {
            if let ParamValue::Expr(x) = value {
                self.height = x;
                return Ok(());
            }
        }
        Err(unknown_parameter(name))
    }
}

/// A sphere from its centre and radius.
#[derive(Clone, Debug)]
pub struct SphereFeature {
    pub x: String,
    pub y: String,
    pub z: String,
    pub radius: String,
}

impl Default for SphereFeature {
    fn default() -> (f: SphereFeature)
        ensures
            f.x@ == "0"@,
            f.y@ == "0"@,
            f.z@ == "0"@,
            f.radius@ == "10"@,
    {
        SphereFeature {
            x: owned("0"),
            y: owned("0"),
            z: owned("0"),
            radius: owned("10"),
        }
    }
}

impl SphereFeature {
    pub fn kind(&self) -> (r: &'static str)
        ensures
            r@ == "sphere"@,
    {
        "sphere"
    }

    pub fn name(&self) -> (r: String)
        ensures
            r@ == "Sphere (r="@ + self.radius@ + ")"@,
    {
        let mut r = String::new();
        r.append("Sphere (r=");
        r.append(self.radius.as_str());
        r.append(")");
        assert(r@ =~= "Sphere (r="@ + self.radius@ + ")"@);
        r
    }

    pub fn params(&self) -> (v: Vec<ParamSpec>)
        ensures
            v@.len() == 4,
            is_length(v@[0], "x"@, "Centre X"@, self.x@),
            is_length(v@[1], "y"@, "Centre Y"@, self.y@),
            is_length(v@[2], "z"@, "Centre Z"@, self.z@),
            is_length(v@[3], "radius"@, "Radius"@, self.radius@),
    {
        vec![
            ParamSpec::length("x", "Centre X", self.x.as_str()),
            ParamSpec::length("y", "Centre Y", self.y.as_str()),
            ParamSpec::length("z", "Centre Z", self.z.as_str()),
            ParamSpec::length("radius", "Radius", self.radius.as_str()),
        ]
    }

    /// Sets parameter `name`; an unknown name, or a value of the wrong
    /// kind, changes nothing and is an error.
    pub fn set_param(&mut self, name: &str, value: ParamValue) -> (r: Result<(), String>)
        ensures
            if name@ == "x"@ {
                match value {
                    ParamValue::Expr(x) => r is Ok && *final(self) == (SphereFeature { x: x, ..*old(self) }),
                    _ => unknown_param(r, name@) && *final(self) == *old(self),
                }
            } else if name@ == "y"@ {
                match value {
                    ParamValue::Expr(x) => r is Ok && *final(self) == (SphereFeature { y: x, ..*old(self) }),
                    _ => unknown_param(r, name@) && *final(self) == *old(self),
                }
            } else if name@ == "z"@ {
                match value {
                    ParamValue::Expr(x) => r is Ok && *final(self) == (SphereFeature { z: x, ..*old(self) }),
                    _ => unknown_param(r, name@) && *final(self) == *old(self),
                }
            } else if name@ == "radius"@ {
                match value {
                    ParamValue::Expr(x) => r is Ok && *final(self) == (SphereFeature { radius: x, ..*old(self) }),
                    _ => unknown_param(r, name@) && *final(self) == *old(self),
                }
            } else {
                unknown_param(r, name@) && *final(self) == *old(self)
            },
    {
        if str_eq(name, "x") {
            if let ParamValue::Expr(x) = value {
                self.x = x;
                return Ok(());
            }
        } else if str_eq(name, "y") {
            if let ParamValue::Expr(x) = value {
                self.y = x;
                return Ok(());
            }
        } else if str_eq(name, "z") {
            if let ParamValue::Expr(x) = value {
                self.z = x;
                return Ok(());
            }
        } else if str_eq(name, "radius") {
            if let ParamValue::Expr(x) = value {
                self.radius = x;
                return Ok(());
            }
        }
        Err(unknown_parameter(name))
    }
}

/// A torus about a vertical axis.
#[derive(Clone, Debug)]
pub struct TorusFeature {
    pub x: String,
    pub y: String,
    pub z: String,
    pub major: String,
    pub minor: String,
}

impl Default for TorusFeature {
    fn default() -> (f: TorusFeature)
        ensures
            f.x@ == "0"@,
            f.y@ == "0"@,
            f.z@ == "0"@,
            f.major@ == "20"@,
            f.minor@ == "4"@,
    {
        TorusFeature {
            x: owned("0"),
            y: owned("0"),
            z: owned("0"),
            major: owned("20"),
            minor: owned("4"),
        }
    }
}

impl TorusFeature {
    pub fn kind(&self) -> (r: &'static str)
        ensures
            r@ == "torus"@,
    {
        "torus"
    }

    pub fn name(&self) -> (r: String)
        ensures
            r@ == "Torus (R="@ + self.major@ + ", r="@ + self.minor@ + ")"@,
    {
        let mut r = String::new();
        r.append("Torus (R=");
        r.append(self.major.as_str());
        r.append(", r=");
        r.append(self.minor.as_str());
        r.append(")");
        assert(r@ =~= "Torus (R="@ + self.major@ + ", r="@ + self.minor@ + ")"@);
        r
    }

    pub fn params(&self) -> (v: Vec<ParamSpec>)
        ensures
            v@.len() == 5,
            is_length(v@[0], "x"@, "Centre X"@, self.x@),
            is_length(v@[1], "y"@, "Centre Y"@, self.y@),
            is_length(v@[2], "z"@, "Centre Z"@, self.z@),
            is_length(v@[3], "major"@, "Major radius"@, self.major@),
            is_length(v@[4], "minor"@, "Minor radius"@, self.minor@),
    {
        vec![
            ParamSpec::length("x", "Centre X", self.x.as_str()),
            ParamSpec::length("y", "Centre Y", self.y.as_str()),
            ParamSpec::length("z", "Centre Z", self.z.as_str()),
            ParamSpec::length("major", "Major radius", self.major.as_str()),
            ParamSpec::length("minor", "Minor radius", self.minor.as_str()),
        ]
    }

    /// Sets parameter `name`; an unknown name, or a value of the wrong
    /// kind, changes nothing and is an error.
    pub fn set_param(&mut self, name: &str, value: ParamValue) -> (r: Result<(), String>)
        ensures
            if name@ == "x"@ {
                match value {
                    ParamValue::Expr(x) => r is Ok && *final(self) == (TorusFeature { x: x, ..*old(self) }),
                    _ => unknown_param(r, name@) && *final(self) == *old(self),
                }
            } else if name@ == "y"@ {
                match value {
                    ParamValue::Expr(x) => r is Ok && *final(self) == (TorusFeature { y: x, ..*old(self) }),
                    _ => unknown_param(r, name@) && *final(self) == *old(self),
                }
            } else if name@ == "z"@ {
                match value {
                    ParamValue::Expr(x) => r is Ok && *final(self) == (TorusFeature { z: x, ..*old(self) }),
                    _ => unknown_param(r, name@) && *final(self) == *old(self),
                }
            } else if name@ == "major"@ {
                match value {
                    ParamValue::Expr(x) => r is Ok && *final(self) == (TorusFeature { major: x, ..*old(self) }),
                    _ => unknown_param(r, name@) && *final(self) == *old(self),
                }
            } else if name@ == "minor"@ {
                match value {
                    ParamValue::Expr(x) => r is Ok && *final(self) == (TorusFeature { minor: x, ..*old(self) }),
                    _ => unknown_param(r, name@) && *final(self) == *old(self),
                }
            } else {
                unknown_param(r, name@) && *final(self) == *old(self)
            },
    {
        if str_eq(name, "x") {
            if let ParamValue::Expr(x) = value {
                self.x = x;
                return Ok(());
            }
        } else if str_eq(name, "y") {
            if let ParamValue::Expr(x) = value {
                self.y = x;
                return Ok(());
            }
        } else if str_eq(name, "z") {
            if let ParamValue::Expr(x) = value {
                self.z = x;
                return Ok(());
            }
        } else if str_eq(name, "major") {
            if let ParamValue::Expr(x) = value {
                self.major = x;
                return Ok(());
            }
        } else if str_eq(name, "minor") {
            if let ParamValue::Expr(x) = value {
                self.minor = x;
                return Ok(());
            }
        }
        Err(unknown_parameter(name))
    }
}

} // verus!
