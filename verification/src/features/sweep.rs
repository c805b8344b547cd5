//! Sweep: carry a closed profile along an open path from another sketch.

use vstd::prelude::*;
use crate::document::{renumber, renumbered, Renumber};
use crate::features::{moved_ref};
use crate::param::{is_ref, is_regions, names_of, unknown_param, unknown_parameter, ParamSpec, ParamValue};
use crate::text::{decimal, owned, push_decimal, str_eq};

verus! {

/// Carries a closed profile along an open path from another sketch.
#[derive(Clone, Debug)]
pub struct SweepFeature {
    pub profile: usize,
    pub path: usize,
    /// Regions of the profile sketch to sweep; empty means the default ones.
    pub regions: String,
}

impl Default for SweepFeature {
    fn default() -> (f: SweepFeature)
        ensures
            f.profile == 0,
            f.path == 1,
            f.regions@ == ""@,
    {
        SweepFeature {
            profile: 0,
            path: 1,
            regions: owned(""),
        }
    }
}

impl SweepFeature {
    pub fn kind(&self) -> (r: &'static str)
        ensures
            r@ == "sweep"@,
    {
        "sweep"
    }

    pub fn name(&self) -> (r: String)
        ensures
            r@ == "Sweep (profile "@ + decimal(self.profile as nat) + ", path "@ + decimal(self.path as nat) + ")"@,
    {
        let mut r = String::new();
        r.append("Sweep (profile ");
        push_decimal(&mut r, self.profile as u64);
        r.append(", path ");
        push_decimal(&mut r, self.path as u64);
        r.append(")");
        assert(r@ =~= "Sweep (profile "@ + decimal(self.profile as nat) + ", path "@ + decimal(self.path as nat) + ")"@);
        r
    }

    pub fn params(&self) -> (v: Vec<ParamSpec>)
        ensures
            v@.len() == 3,
            is_ref(v@[0], "profile"@, "Profile sketch"@, seq!["sketch"@], self.profile),
            is_regions(v@[1], "regions"@, "profile"@, self.regions@),
            is_ref(v@[2], "path"@, "Path sketch"@, seq!["sketch"@], self.path),
    {
        let o0 = vec!["sketch"];
        assert(names_of(o0@) =~= seq!["sketch"@]);
        let o1 = vec!["sketch"];
        assert(names_of(o1@) =~= seq!["sketch"@]);
        vec![
            ParamSpec::feature_ref("profile", "Profile sketch", o0, self.profile),
            ParamSpec::regions("regions", "profile", self.regions.as_str()),
            ParamSpec::feature_ref("path", "Path sketch", o1, self.path),
        ]
    }

    /// Sets parameter `name`; an unknown name, or a value of the wrong
    /// kind, changes nothing and is an error.
    pub fn set_param(&mut self, name: &str, value: ParamValue) -> (r: Result<(), String>)
        ensures
            if name@ == "profile"@ {
                match value {
                    ParamValue::FeatureRef(x) => r is Ok && *final(self) == (SweepFeature { profile: x, ..*old(self) }),
                    _ => unknown_param(r, name@) && *final(self) == *old(self),
                }
            } else if name@ == "path"@ {
                match value {
                    ParamValue::FeatureRef(x) => r is Ok && *final(self) == (SweepFeature { path: x, ..*old(self) }),
                    _ => unknown_param(r, name@) && *final(self) == *old(self),
                }
            } else if name@ == "regions"@ {
                match value {
                    ParamValue::Expr(x) => r is Ok && *final(self) == (SweepFeature { regions: x, ..*old(self) }),
                    _ => unknown_param(r, name@) && *final(self) == *old(self),
                }
            } else {
                unknown_param(r, name@) && *final(self) == *old(self)
            },
    {
        if str_eq(name, "profile") {
            if let ParamValue::FeatureRef(x) = value {
                self.profile = x;
                return Ok(());
            }
        } else if str_eq(name, "path") {
            if let ParamValue::FeatureRef(x) = value {
                self.path = x;
                return Ok(());
            }
        } else if str_eq(name, "regions") {
            if let ParamValue::Expr(x) = value {
                self.regions = x;
                return Ok(());
            }
        }
        Err(unknown_parameter(name))
    }

    /// Follows a renumbering of the document's features: each feature
    /// reference moves with its feature; one whose feature is gone is
    /// named as broken and set to the deleted mark `usize::MAX`.
    pub fn remap_refs(&mut self, m: &Renumber) -> (broken: Vec<&'static str>)
        ensures
            *final(self) == (SweepFeature { profile: moved_ref(*m, old(self).profile), path: moved_ref(*m, old(self).path), ..*old(self) }),
            broken@.map_values(|s: &'static str| s@) == (if renumbered(*m, old(self).profile) is None { seq!["profile"@] } else { Seq::empty() }) + (if renumbered(*m, old(self).path) is None { seq!["path"@] } else { Seq::empty() }),
    {
        let ghost o = *self;
        let mut broken: Vec<&'static str> = Vec::new();
        match renumber(m, self.profile) {
            Some(n) => {
                self.profile = n;
            },
            None => {
                broken.push("profile");
                self.profile = usize::MAX;
            },
        }
        match renumber(m, self.path) {
            Some(n) => {
                self.path = n;
            },
            None => {
                broken.push("path");
                self.path = usize::MAX;
            },
        }
        assert(broken@.map_values(|s: &'static str| s@) =~= (if renumbered(*m, o.profile) is None { seq!["profile"@] } else { Seq::empty() }) + (if renumbered(*m, o.path) is None { seq!["path"@] } else { Seq::empty() }));
        broken
    }
}

} // verus!
