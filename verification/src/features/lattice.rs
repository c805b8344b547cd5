//! Lattice fill: replace the inside of a body with a lattice under a solid skin.

use vstd::prelude::*;
use crate::document::{renumber, renumbered, Renumber};
use crate::features::{body_type_list, body_types, moved_ref};
use crate::param::{is_choice, is_length, is_ref, is_text, names_of, spec, unknown_param, unknown_parameter, ParamSpec, ParamValue};
use crate::text::{owned, str_eq};

verus! {

/// The lattice kinds: sheet lattices first, then beam lattices.
pub open spec fn lattice_kind_list() -> Seq<Seq<char>> {
    seq!["gyroid"@, "schwarz"@, "diamond"@, "cubic"@, "bcc"@, "octet"@, "kelvin"@, "honeycomb"@]
}

pub fn lattice_kinds() -> (v: Vec<&'static str>)
    ensures
        names_of(v@) == lattice_kind_list(),
{
    let v = vec!["gyroid", "schwarz", "diamond", "cubic", "bcc", "octet", "kelvin", "honeycomb"];
    assert(names_of(v@) =~= lattice_kind_list());
    v
}

/// A grade end of a document that does not give one.
pub fn zero() -> (r: String)
    ensures
        r@ == "0"@,
{
    owned("0")
}

/// A grade or conform choice of a document that does not give one.
pub fn none() -> (r: String)
    ensures
        r@ == "none"@,
{
    owned("none")
}

/// Replaces the inside of a body with a lattice under a solid skin.
#[derive(Clone, Debug)]
pub struct LatticeFillFeature {
    pub body: usize,
    /// The lattice kind, one of `lattice_kinds`.
    pub lattice: String,
    /// Repeat length of the lattice cell (mm).
    pub cell: String,
    /// Sheet thickness of the lattice (mm).
    pub wall: String,
    /// Solid skin kept under the body's surface (mm); 0 for none.
    pub skin: String,
    /// Voxel size for sampling and meshing (mm).
    pub resolution: String,
    /// Wall or beam thickness at the far end of the grade; 0 keeps `wall`.
    pub wall_end: String,
    /// Cell size at the far end of the grade; 0 keeps `cell`.
    pub cell_end: String,
    /// "none", "x", "y", "z", "radial", "map" or "distance".
    pub grade: String,
    /// "none" or "cylinder".
    pub conform: String,
    /// Body whose surface drives the thickness when `grade` is "distance".
    pub ref_body: usize,
    /// CSV file of `x, y, z, value` samples that drives the thickness when
    /// `grade` is "map".
    pub map_file: String,
    pub map_lo: String,
    pub map_hi: String,
}

impl Default for LatticeFillFeature {
    fn default() -> (f: LatticeFillFeature)
        ensures
            f.body == 1,
            f.lattice@ == "gyroid"@,
            f.cell@ == "8"@,
            f.wall@ == "1.2"@,
            f.skin@ == "1.2"@,
            f.resolution@ == "0.4"@,
            f.wall_end@ == "0"@,
            f.cell_end@ == "0"@,
            f.grade@ == "none"@,
            f.conform@ == "none"@,
            f.ref_body == 0,
            f.map_file@ == ""@,
            f.map_lo@ == "0"@,
            f.map_hi@ == "0"@,
    {
        LatticeFillFeature {
            body: 1,
            lattice: owned("gyroid"),
            cell: owned("8"),
            wall: owned("1.2"),
            skin: owned("1.2"),
            resolution: owned("0.4"),
            wall_end: owned("0"),
            cell_end: owned("0"),
            grade: owned("none"),
            conform: owned("none"),
            ref_body: 0,
            map_file: owned(""),
            map_lo: owned("0"),
            map_hi: owned("0"),
        }
    }
}

impl LatticeFillFeature {
    pub fn kind(&self) -> (r: &'static str)
        ensures
            r@ == "lattice_fill"@,
    {
        "lattice_fill"
    }

    pub fn name(&self) -> (r: String)
        ensures
            r@ == "Lattice fill ("@ + self.lattice@ + " "@ + self.cell@ + " mm)"@,
    {
        let mut r = String::new();
        r.append("Lattice fill (");
        r.append(self.lattice.as_str());
        r.append(" ");
        r.append(self.cell.as_str());
        r.append(" mm)");
        assert(r@ =~= "Lattice fill ("@ + self.lattice@ + " "@ + self.cell@ + " mm)"@);
        r
    }

    pub fn params(&self) -> (v: Vec<ParamSpec>)
        ensures
            v@.len() == 14,
            is_ref(v@[0], "body"@, "Body"@, body_type_list(), self.body),
            is_choice(v@[1], "lattice"@, "Lattice"@, lattice_kind_list(), self.lattice@),
            is_length(v@[2], "cell"@, "Cell size"@, self.cell@),
            is_length(v@[3], "wall"@, "Wall thickness"@, self.wall@),
            is_length(v@[4], "skin"@, "Skin thickness"@, self.skin@),
            is_length(v@[5], "resolution"@, "Resolution"@, self.resolution@),
            is_length(v@[6], "wall_end"@, "Thickness at far end (0 = same)"@, self.wall_end@),
            is_length(v@[7], "cell_end"@, "Cell size at far end (0 = same)"@, self.cell_end@),
            is_choice(v@[8], "grade"@, "Grade along"@, seq!["none"@, "x"@, "y"@, "z"@, "radial"@, "map"@, "distance"@], self.grade@),
            is_ref(v@[9], "ref_body"@, "Distance to body"@, body_type_list(), self.ref_body),
            is_choice(v@[10], "conform"@, "Conform to"@, seq!["none"@, "cylinder"@], self.conform@),
            is_text(v@[11], "map_file"@, "Point map CSV (x, y, z, value)"@, self.map_file@),
            is_length(v@[12], "map_lo"@, "Map value for Thickness (0, 0 = map range)"@, self.map_lo@),
            is_length(v@[13], "map_hi"@, "Map value for Thickness at far end"@, self.map_hi@),
    {
        let o0 = vec!["none", "x", "y", "z", "radial", "map", "distance"];
        assert(names_of(o0@) =~= seq!["none"@, "x"@, "y"@, "z"@, "radial"@, "map"@, "distance"@]);
        let o1 = vec!["none", "cylinder"];
        assert(names_of(o1@) =~= seq!["none"@, "cylinder"@]);
        vec![
            ParamSpec::feature_ref("body", "Body", body_types(), self.body),
            ParamSpec::choice("lattice", "Lattice", lattice_kinds(), self.lattice.as_str()),
            ParamSpec::length("cell", "Cell size", self.cell.as_str()),
            ParamSpec::length("wall", "Wall thickness", self.wall.as_str()),
            ParamSpec::length("skin", "Skin thickness", self.skin.as_str()),
            ParamSpec::length("resolution", "Resolution", self.resolution.as_str()),
            ParamSpec::length("wall_end", "Thickness at far end (0 = same)", self.wall_end.as_str()),
            ParamSpec::length("cell_end", "Cell size at far end (0 = same)", self.cell_end.as_str()),
            ParamSpec::choice("grade", "Grade along", o0, self.grade.as_str()),
            ParamSpec::feature_ref("ref_body", "Distance to body", body_types(), self.ref_body),
            ParamSpec::choice("conform", "Conform to", o1, self.conform.as_str()),
            spec("map_file", "Point map CSV (x, y, z, value)", self.map_file.as_str()),
            ParamSpec::length("map_lo", "Map value for Thickness (0, 0 = map range)", self.map_lo.as_str()),
            ParamSpec::length("map_hi", "Map value for Thickness at far end", self.map_hi.as_str()),
        ]
    }

    /// Sets parameter `name`; an unknown name, or a value of the wrong
    /// kind, changes nothing and is an error.
    pub fn set_param(&mut self, name: &str, value: ParamValue) -> (r: Result<(), String>)
        ensures
            if name@ == "body"@ {
                match value {
                    ParamValue::FeatureRef(x) => r is Ok && *final(self) == (LatticeFillFeature { body: x, ..*old(self) }),
                    _ => unknown_param(r, name@) && *final(self) == *old(self),
                }
            } else if name@ == "lattice"@ {
                match value {
                    ParamValue::Choice(x) => r is Ok && *final(self) == (LatticeFillFeature { lattice: x, ..*old(self) }),
                    _ => unknown_param(r, name@) && *final(self) == *old(self),
                }
            } else if name@ == "cell"@ {
                match value {
                    ParamValue::Expr(x) => r is Ok && *final(self) == (LatticeFillFeature { cell: x, ..*old(self) }),
                    _ => unknown_param(r, name@) && *final(self) == *old(self),
                }
            } else if name@ == "wall"@ {
                match value {
                    ParamValue::Expr(x) => r is Ok && *final(self) == (LatticeFillFeature { wall: x, ..*old(self) }),
                    _ => unknown_param(r, name@) && *final(self) == *old(self),
                }
            } else if name@ == "skin"@ {
                match value {
                    ParamValue::Expr(x) => r is Ok && *final(self) == (LatticeFillFeature { skin: x, ..*old(self) }),
                    _ => unknown_param(r, name@) && *final(self) == *old(self),
                }
            } else if name@ == "resolution"@ {
                match value {
                    ParamValue::Expr(x) => r is Ok && *final(self) == (LatticeFillFeature { resolution: x, ..*old(self) }),
                    _ => unknown_param(r, name@) && *final(self) == *old(self),
                }
            } else if name@ == "wall_end"@ {
                match value {
                    ParamValue::Expr(x) => r is Ok && *final(self) == (LatticeFillFeature { wall_end: x, ..*old(self) }),
                    _ => unknown_param(r, name@) && *final(self) == *old(self),
                }
            } else if name@ == "cell_end"@ {
                match value {
                    ParamValue::Expr(x) => r is Ok && *final(self) == (LatticeFillFeature { cell_end: x, ..*old(self) }),
                    _ => unknown_param(r, name@) && *final(self) == *old(self),
                }
            } else if name@ == "grade"@ {
                match value {
                    ParamValue::Choice(x) => r is Ok && *final(self) == (LatticeFillFeature { grade: x, ..*old(self) }),
                    _ => unknown_param(r, name@) && *final(self) == *old(self),
                }
            } else if name@ == "conform"@ {
                match value {
                    ParamValue::Choice(x) => r is Ok && *final(self) == (LatticeFillFeature { conform: x, ..*old(self) }),
                    _ => unknown_param(r, name@) && *final(self) == *old(self),
                }
            } else if name@ == "ref_body"@ {
                match value {
                    ParamValue::FeatureRef(x) => r is Ok && *final(self) == (LatticeFillFeature { ref_body: x, ..*old(self) }),
                    _ => unknown_param(r, name@) && *final(self) == *old(self),
                }
            } else if name@ == "map_file"@ {
                match value {
                    ParamValue::Expr(x) => r is Ok && *final(self) == (LatticeFillFeature { map_file: x, ..*old(self) }),
                    _ => unknown_param(r, name@) && *final(self) == *old(self),
                }
            } else if name@ == "map_lo"@ {
                match value {
                    ParamValue::Expr(x) => r is Ok && *final(self) == (LatticeFillFeature { map_lo: x, ..*old(self) }),
                    _ => unknown_param(r, name@) && *final(self) == *old(self),
                }
            } else if name@ == "map_hi"@ {
                match value {
                    ParamValue::Expr(x) => r is Ok && *final(self) == (LatticeFillFeature { map_hi: x, ..*old(self) }),
                    _ => unknown_param(r, name@) && *final(self) == *old(self),
                }
            } else {
                unknown_param(r, name@) && *final(self) == *old(self)
            },
    {
        if str_eq(name, "body") {
            if let ParamValue::FeatureRef(x) = value {
                self.body = x;
                return Ok(());
            }
        } else if str_eq(name, "lattice") {
            if let ParamValue::Choice(x) = value {
                self.lattice = x;
                return Ok(());
            }
        } else if str_eq(name, "cell") {
            if let ParamValue::Expr(x) = value {
                self.cell = x;
                return Ok(());
            }
        } else if str_eq(name, "wall") {
            if let ParamValue::Expr(x) = value {
                self.wall = x;
                return Ok(());
            }
        } else if str_eq(name, "skin") {
            if let ParamValue::Expr(x) = value {
                self.skin = x;
                return Ok(());
            }
        } else if str_eq(name, "resolution") {
            if let ParamValue::Expr(x) = value {
                self.resolution = x;
                return Ok(());
            }
        } else if str_eq(name, "wall_end") {
            if let ParamValue::Expr(x) = value {
                self.wall_end = x;
                return Ok(());
            }
        } else if str_eq(name, "cell_end") {
            if let ParamValue::Expr(x) = value {
                self.cell_end = x;
                return Ok(());
            }
        } else if str_eq(name, "grade") {
            if let ParamValue::Choice(x) = value {
                self.grade = x;
                return Ok(());
            }
        } else if str_eq(name, "conform") {
            if let ParamValue::Choice(x) = value {
                self.conform = x;
                return Ok(());
            }
        } else if str_eq(name, "ref_body") {
            if let ParamValue::FeatureRef(x) = value {
                self.ref_body = x;
                return Ok(());
            }
        } else if str_eq(name, "map_file") {
            if let ParamValue::Expr(x) = value {
                self.map_file = x;
                return Ok(());
            }
        } else if str_eq(name, "map_lo") {
            if let ParamValue::Expr(x) = value {
                self.map_lo = x;
                return Ok(());
            }
        } else if str_eq(name, "map_hi") {
            if let ParamValue::Expr(x) = value {
                self.map_hi = x;
                return Ok(());
            }
        }
        Err(unknown_parameter(name))
    }

    /// Follows a renumbering of the document's features: each feature
    /// reference moves with its feature; one whose feature is gone is
    /// named as broken and set to the deleted mark `usize::MAX`.
    pub fn remap_refs(&mut self, m: &Renumber) -> (broken: Vec<&'static str>)
        ensures
            *final(self) == (LatticeFillFeature { body: moved_ref(*m, old(self).body), ref_body: moved_ref(*m, old(self).ref_body), ..*old(self) }),
            broken@.map_values(|s: &'static str| s@) == (if renumbered(*m, old(self).body) is None { seq!["body"@] } else { Seq::empty() }) + (if renumbered(*m, old(self).ref_body) is None { seq!["ref_body"@] } else { Seq::empty() }),
    {
        let ghost o = *self;
        let mut broken: Vec<&'static str> = Vec::new();
        match renumber(m, self.body) {
            Some(n) => {
                self.body = n;
            },
            None => {
                broken.push("body");
                self.body = usize::MAX;
            },
        }
        match renumber(m, self.ref_body) {
            Some(n) => {
                self.ref_body = n;
            },
            None => {
                broken.push("ref_body");
                self.ref_body = usize::MAX;
            },
        }
        assert(broken@.map_values(|s: &'static str| s@) =~= (if renumbered(*m, o.body) is None { seq!["body"@] } else { Seq::empty() }) + (if renumbered(*m, o.ref_body) is None { seq!["ref_body"@] } else { Seq::empty() }));
        broken
    }
}

} // verus!
