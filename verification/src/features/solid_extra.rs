//! Coil, Pipe, Insert Mesh, and a plane through three points.

use vstd::prelude::*;
use crate::document::{renumber, renumbered, Renumber};
use crate::features::{moved_ref};
use crate::param::{is_length, is_ref, is_text, names_of, spec, unknown_param, unknown_parameter, ParamSpec, ParamValue};
use crate::text::{owned, str_eq};

verus! {

/// The end diameter of a document that does not give one.
pub fn zero_expr() -> (r: String)
    ensures
        r@ == "0"@,
{
    owned("0")
}

/// A helical coil of round wire about a vertical axis.
#[derive(Clone, Debug)]
pub struct CoilFeature {
    pub x: String,
    pub y: String,
    pub z: String,
    pub radius: String,
    pub pitch: String,
    pub turns: String,
    pub wire: String,
}

impl Default for CoilFeature {
    fn default() -> (f: CoilFeature)
        ensures
            f.x@ == "0"@,
            f.y@ == "0"@,
            f.z@ == "0"@,
            f.radius@ == "10"@,
            f.pitch@ == "4"@,
            f.turns@ == "5"@,
            f.wire@ == "2"@,
    {
        CoilFeature {
            x: owned("0"),
            y: owned("0"),
            z: owned("0"),
            radius: owned("10"),
            pitch: owned("4"),
            turns: owned("5"),
            wire: owned("2"),
        }
    }
}

impl CoilFeature {
    pub fn kind(&self) -> (r: &'static str)
        ensures
            r@ == "coil"@,
    {
        "coil"
    }

    pub fn name(&self) -> (r: String)
        ensures
            r@ == "Coil (r="@ + self.radius@ + ", "@ + self.turns@ + " turns)"@,
    {
        let mut r = String::new();
        r.append("Coil (r=");
        r.append(self.radius.as_str());
        r.append(", ");
        r.append(self.turns.as_str());
        r.append(" turns)");
        assert(r@ =~= "Coil (r="@ + self.radius@ + ", "@ + self.turns@ + " turns)"@);
        r
    }

    pub fn params(&self) -> (v: Vec<ParamSpec>)
        ensures
            v@.len() == 7,
            is_length(v@[0], "x"@, "Centre X"@, self.x@),
            is_length(v@[1], "y"@, "Centre Y"@, self.y@),
            is_length(v@[2], "z"@, "Base Z"@, self.z@),
            is_length(v@[3], "radius"@, "Coil radius"@, self.radius@),
            is_length(v@[4], "pitch"@, "Pitch"@, self.pitch@),
            is_length(v@[5], "turns"@, "Turns"@, self.turns@),
            is_length(v@[6], "wire"@, "Wire diameter"@, self.wire@),
    {
        vec![
            ParamSpec::length("x", "Centre X", self.x.as_str()),
            ParamSpec::length("y", "Centre Y", self.y.as_str()),
            ParamSpec::length("z", "Base Z", self.z.as_str()),
            ParamSpec::length("radius", "Coil radius", self.radius.as_str()),
            ParamSpec::length("pitch", "Pitch", self.pitch.as_str()),
            ParamSpec::length("turns", "Turns", self.turns.as_str()),
            ParamSpec::length("wire", "Wire diameter", self.wire.as_str()),
        ]
    }

    /// Sets parameter `name`; an unknown name, or a value of the wrong
    /// kind, changes nothing and is an error.
    pub fn set_param(&mut self, name: &str, value: ParamValue) -> (r: Result<(), String>)
        ensures
            match value {
                ParamValue::Expr(x) => {
                    if name@ == "x"@ {
                        r is Ok && *final(self) == (CoilFeature { x: x, ..*old(self) })
                    } else if name@ == "y"@ {
                        r is Ok && *final(self) == (CoilFeature { y: x, ..*old(self) })
                    } else if name@ == "z"@ {
                        r is Ok && *final(self) == (CoilFeature { z: x, ..*old(self) })
                    } else if name@ == "radius"@ {
                        r is Ok && *final(self) == (CoilFeature { radius: x, ..*old(self) })
                    } else if name@ == "pitch"@ {
                        r is Ok && *final(self) == (CoilFeature { pitch: x, ..*old(self) })
                    } else if name@ == "turns"@ {
                        r is Ok && *final(self) == (CoilFeature { turns: x, ..*old(self) })
                    } else if name@ == "wire"@ {
                        r is Ok && *final(self) == (CoilFeature { wire: x, ..*old(self) })
                    } else {
                        unknown_param(r, name@) && *final(self) == *old(self)
                    }
                },
                _ => r matches Err(m) && m@ == "expected an expression"@ && *final(self) == *old(self),
            },
    {
        let x = match value {
            ParamValue::Expr(x) => x,
            _ => return Err(owned("expected an expression")),
        };
        if str_eq(name, "x") {
            self.x = x;
        } else if str_eq(name, "y") {
            self.y = x;
        } else if str_eq(name, "z") {
            self.z = x;
        } else if str_eq(name, "radius") {
            self.radius = x;
        } else if str_eq(name, "pitch") {
            self.pitch = x;
        } else if str_eq(name, "turns") {
            self.turns = x;
        } else if str_eq(name, "wire") {
            self.wire = x;
        } else {
            return Err(unknown_parameter(name));
        }
        Ok(())
    }
}

/// A round tube along an open path of a sketch.
#[derive(Clone, Debug)]
pub struct PipeFeature {
    pub path: usize,
    pub diameter: String,
    /// Diameter at the far end of the path. `0` keeps `diameter` all along.
    pub end_diameter: String,
}

impl Default for PipeFeature {
    fn default() -> (f: PipeFeature)
        ensures
            f.path == 0,
            f.diameter@ == "4"@,
            f.end_diameter@ == "0"@,
    {
        PipeFeature {
            path: 0,
            diameter: owned("4"),
            end_diameter: owned("0"),
        }
    }
}

impl PipeFeature {
    pub fn kind(&self) -> (r: &'static str)
        ensures
            r@ == "pipe"@,
    {
        "pipe"
    }

    pub fn name(&self) -> (r: String)
        ensures
            r@ == "Pipe (d="@ + self.diameter@ + ")"@,
    {
        let mut r = String::new();
        r.append("Pipe (d=");
        r.append(self.diameter.as_str());
        r.append(")");
        assert(r@ =~= "Pipe (d="@ + self.diameter@ + ")"@);
        r
    }

    pub fn params(&self) -> (v: Vec<ParamSpec>)
        ensures
            v@.len() == 3,
            is_ref(v@[0], "path"@, "Path sketch"@, seq!["sketch"@], self.path),
            is_length(v@[1], "diameter"@, "Diameter"@, self.diameter@),
            is_length(v@[2], "end_diameter"@, "Diameter at end (0 = same)"@, self.end_diameter@),
    {
        let o0 = vec!["sketch"];
        assert(names_of(o0@) =~= seq!["sketch"@]);
        vec![
            ParamSpec::feature_ref("path", "Path sketch", o0, self.path),
            ParamSpec::length("diameter", "Diameter", self.diameter.as_str()),
            ParamSpec::length("end_diameter", "Diameter at end (0 = same)", self.end_diameter.as_str()),
        ]
    }

    /// Sets parameter `name`; an unknown name, or a value of the wrong
    /// kind, changes nothing and is an error.
    pub fn set_param(&mut self, name: &str, value: ParamValue) -> (r: Result<(), String>)
        ensures
            if name@ == "path"@ {
                match value {
                    ParamValue::FeatureRef(x) => r is Ok && *final(self) == (PipeFeature { path: x, ..*old(self) }),
                    _ => unknown_param(r, name@) && *final(self) == *old(self),
                }
            } else if name@ == "diameter"@ {
                match value {
                    ParamValue::Expr(x) => r is Ok && *final(self) == (PipeFeature { diameter: x, ..*old(self) }),
                    _ => unknown_param(r, name@) && *final(self) == *old(self),
                }
            } else if name@ == "end_diameter"@ {
                match value {
                    ParamValue::Expr(x) => r is Ok && *final(self) == (PipeFeature { end_diameter: x, ..*old(self) }),
                    _ => unknown_param(r, name@) && *final(self) == *old(self),
                }
            } else {
                unknown_param(r, name@) && *final(self) == *old(self)
            },
    {
        if str_eq(name, "path") {
            if let ParamValue::FeatureRef(x) = value {
                self.path = x;
                return Ok(());
            }
        } else if str_eq(name, "diameter") {
            if let ParamValue::Expr(x) = value {
                self.diameter = x;
                return Ok(());
            }
        } else if str_eq(name, "end_diameter") {
            if let ParamValue::Expr(x) = value {
                self.end_diameter = x;
                return Ok(());
            }
        }
        Err(unknown_parameter(name))
    }

    /// Follows a renumbering of the document's features: each feature
    /// reference moves with its feature; one whose feature is gone is
    /// named as broken and set to the deleted mark `usize::MAX`.
    pub fn remap_refs(&mut self, m: &Renumber) -> (broken: Vec<&'static str>)
        ensures
            *final(self) == (PipeFeature { path: moved_ref(*m, old(self).path), ..*old(self) }),
            broken@.map_values(|s: &'static str| s@) == (if renumbered(*m, old(self).path) is None { seq!["path"@] } else { Seq::empty() }),
    {
        let ghost o = *self;
        let mut broken: Vec<&'static str> = Vec::new();
        match renumber(m, self.path) {
            Some(n) => {
                self.path = n;
            },
            None => {
                broken.push("path");
                self.path = usize::MAX;
            },
        }
        assert(broken@.map_values(|s: &'static str| s@) =~= (if renumbered(*m, o.path) is None { seq!["path"@] } else { Seq::empty() }));
        broken
    }
}

/// A body read from an STL file.
#[derive(Clone, Debug)]
pub struct MeshFeature {
    pub path: String,
    pub scale: String,
}

impl Default for MeshFeature {
    fn default() -> (f: MeshFeature)
        ensures
            f.path@ == "part.stl"@,
            f.scale@ == "1"@,
    {
        MeshFeature {
            path: owned("part.stl"),
            scale: owned("1"),
        }
    }
}

impl MeshFeature {
    pub fn kind(&self) -> (r: &'static str)
        ensures
            r@ == "mesh"@,
    {
        "mesh"
    }

    pub fn name(&self) -> (r: String)
        ensures
            r@ == "Mesh ("@ + self.path@ + ")"@,
    {
        let mut r = String::new();
        r.append("Mesh (");
        r.append(self.path.as_str());
        r.append(")");
        assert(r@ =~= "Mesh ("@ + self.path@ + ")"@);
        r
    }

    pub fn params(&self) -> (v: Vec<ParamSpec>)
        ensures
            v@.len() == 2,
            is_text(v@[0], "path"@, "STL file"@, self.path@),
            is_length(v@[1], "scale"@, "Scale"@, self.scale@),
    {
        vec![
            spec("path", "STL file", self.path.as_str()),
            ParamSpec::length("scale", "Scale", self.scale.as_str()),
        ]
    }

    /// Sets parameter `name`; an unknown name, or a value of the wrong
    /// kind, changes nothing and is an error.
    pub fn set_param(&mut self, name: &str, value: ParamValue) -> (r: Result<(), String>)
        ensures
            if name@ == "path"@ {
                match value {
                    ParamValue::Expr(x) => r is Ok && *final(self) == (MeshFeature { path: x, ..*old(self) }),
                    _ => unknown_param(r, name@) && *final(self) == *old(self),
                }
            } else if name@ == "scale"@ {
                match value {
                    ParamValue::Expr(x) => r is Ok && *final(self) == (MeshFeature { scale: x, ..*old(self) }),
                    _ => unknown_param(r, name@) && *final(self) == *old(self),
                }
            } else {
                unknown_param(r, name@) && *final(self) == *old(self)
            },
    {
        if str_eq(name, "path") {
            if let ParamValue::Expr(x) = value {
                self.path = x;
                return Ok(());
            }
        } else if str_eq(name, "scale") {
            if let ParamValue::Expr(x) = value {
                self.scale = x;
                return Ok(());
            }
        }
        Err(unknown_parameter(name))
    }
}

/// Plane through three points given as expressions.
#[derive(Clone, Debug)]
pub struct Plane3PointsFeature {
    pub points: String,
}

impl Default for Plane3PointsFeature {
    fn default() -> (f: Plane3PointsFeature)
        ensures
            f.points@ == "0,0,0, 10,0,0, 0,10,5"@,
    {
        Plane3PointsFeature {
            points: owned("0,0,0, 10,0,0, 0,10,5"),
        }
    }
}

impl Plane3PointsFeature {
    pub fn kind(&self) -> (r: &'static str)
        ensures
            r@ == "plane_3pt"@,
    {
        "plane_3pt"
    }

    pub fn name(&self) -> (r: String)
        ensures
            r@ == "Plane through 3 points"@,
    {
        owned("Plane through 3 points")
    }

    pub fn params(&self) -> (v: Vec<ParamSpec>)
        ensures
            v@.len() == 1,
            is_text(v@[0], "points"@, "x,y,z x,y,z x,y,z"@, self.points@),
    {
        vec![
            spec("points", "x,y,z x,y,z x,y,z", self.points.as_str()),
        ]
    }

    /// Sets parameter `name`; an unknown name, or a value of the wrong
    /// kind, changes nothing and is an error.
    pub fn set_param(&mut self, name: &str, value: ParamValue) -> (r: Result<(), String>)
        ensures
            if name@ == "points"@ {
                match value {
                    ParamValue::Expr(x) => r is Ok && *final(self) == (Plane3PointsFeature { points: x, ..*old(self) }),
                    _ => unknown_param(r, name@) && *final(self) == *old(self),
                }
            } else {
                unknown_param(r, name@) && *final(self) == *old(self)
            },
    {
        if str_eq(name, "points") {
            if let ParamValue::Expr(x) = value {
                self.points = x;
                return Ok(());
            }
        }
        Err(unknown_parameter(name))
    }
}

} // verus!
