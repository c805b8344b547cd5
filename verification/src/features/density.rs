//! Density body: a body from a scalar field on a grid.

use vstd::prelude::*;
use crate::param::{is_length, is_text, spec, unknown_param, unknown_parameter, ParamSpec, ParamValue};
use crate::text::{owned, str_eq};

verus! {

/// A body from a scalar field on a grid, the way a topology optimisation
/// result (a density per voxel) becomes a smooth part.
#[derive(Clone, Debug)]
pub struct DensityBodyFeature {
    /// `.vtk` (STRUCTURED_POINTS or points with scalars) or CSV `x, y, z, value`.
    pub file: String,
    /// Inside where the value is above this.
    pub level: String,
    /// Box blur radius in grid cells before the threshold (grids only).
    pub smooth: String,
    /// Voxel size of the output mesh (mm); 0 uses the grid spacing.
    pub resolution: String,
    /// Scale from the file's units to mm.
    pub scale: String,
}

impl Default for DensityBodyFeature {
    fn default() -> (f: DensityBodyFeature)
        ensures
            f.file@ == "density.vtk"@,
            f.level@ == "0.5"@,
            f.smooth@ == "1"@,
            f.resolution@ == "0"@,
            f.scale@ == "1"@,
    {
        DensityBodyFeature {
            file: owned("density.vtk"),
            level: owned("0.5"),
            smooth: owned("1"),
            resolution: owned("0"),
            scale: owned("1"),
        }
    }
}

impl DensityBodyFeature {
    pub fn kind(&self) -> (r: &'static str)
        ensures
            r@ == "density_body"@,
    {
        "density_body"
    }

    pub fn name(&self) -> (r: String)
        ensures
            r@ == "Density body ("@ + self.file@ + " above "@ + self.level@ + ")"@,
    {
        let mut r = String::new();
        r.append("Density body (");
        r.append(self.file.as_str());
        r.append(" above ");
        r.append(self.level.as_str());
        r.append(")");
        assert(r@ =~= "Density body ("@ + self.file@ + " above "@ + self.level@ + ")"@);
        r
    }

    pub fn params(&self) -> (v: Vec<ParamSpec>)
        ensures
            v@.len() == 5,
            is_text(v@[0], "file"@, "VTK grid or CSV point map"@, self.file@),
            is_length(v@[1], "level"@, "Threshold"@, self.level@),
            is_length(v@[2], "smooth"@, "Smoothing (cells)"@, self.smooth@),
            is_length(v@[3], "resolution"@, "Resolution (0 = grid spacing)"@, self.resolution@),
            is_length(v@[4], "scale"@, "File units to mm"@, self.scale@),
    {
        vec![
            spec("file", "VTK grid or CSV point map", self.file.as_str()),
            ParamSpec::length("level", "Threshold", self.level.as_str()),
            ParamSpec::length("smooth", "Smoothing (cells)", self.smooth.as_str()),
            ParamSpec::length("resolution", "Resolution (0 = grid spacing)", self.resolution.as_str()),
            ParamSpec::length("scale", "File units to mm", self.scale.as_str()),
        ]
    }

    /// Sets parameter `name`; an unknown name, or a value of the wrong
    /// kind, changes nothing and is an error.
    pub fn set_param(&mut self, name: &str, value: ParamValue) -> (r: Result<(), String>)
        ensures
            if name@ == "file"@ {
                match value {
                    ParamValue::Expr(x) => r is Ok && *final(self) == (DensityBodyFeature { file: x, ..*old(self) }),
                    _ => unknown_param(r, name@) && *final(self) == *old(self),
                }
            } else if name@ == "level"@ {
                match value {
                    ParamValue::Expr(x) => r is Ok && *final(self) == (DensityBodyFeature { level: x, ..*old(self) }),
                    _ => unknown_param(r, name@) && *final(self) == *old(self),
                }
            } else if name@ == "smooth"@ {
                match value {
                    ParamValue::Expr(x) => r is Ok && *final(self) == (DensityBodyFeature { smooth: x, ..*old(self) }),
                    _ => unknown_param(r, name@) && *final(self) == *old(self),
                }
            } else if name@ == "resolution"@ {
                match value {
                    ParamValue::Expr(x) => r is Ok && *final(self) == (DensityBodyFeature { resolution: x, ..*old(self) }),
                    _ => unknown_param(r, name@) && *final(self) == *old(self),
                }
            } else if name@ == "scale"@ {
                match value {
                    ParamValue::Expr(x) => r is Ok && *final(self) == (DensityBodyFeature { scale: x, ..*old(self) }),
                    _ => unknown_param(r, name@) && *final(self) == *old(self),
                }
            } else {
                unknown_param(r, name@) && *final(self) == *old(self)
            },
    {
        if str_eq(name, "file") {
            if let ParamValue::Expr(x) = value {
                self.file = x;
                return Ok(());
            }
        } else if str_eq(name, "level") {
            if let ParamValue::Expr(x) = value {
                self.level = x;
                return Ok(());
            }
        } else if str_eq(name, "smooth") {
            if let ParamValue::Expr(x) = value {
                self.smooth = x;
                return Ok(());
            }
        } else if str_eq(name, "resolution") {
            if let ParamValue::Expr(x) = value {
                self.resolution = x;
                return Ok(());
            }
        } else if str_eq(name, "scale") {
            if let ParamValue::Expr(x) = value {
                self.scale = x;
                return Ok(());
            }
        }
        Err(unknown_parameter(name))
    }
}

} // verus!
