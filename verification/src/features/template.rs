//! The smallest feature: copy this file to add a new one.

use vstd::prelude::*;
use crate::param::{is_flag, is_length, unknown_param, unknown_parameter, ParamSpec, ParamValue};
use crate::text::{owned, str_eq};

verus! {

/// The smallest feature, a pattern for new ones.
#[derive(Clone, Debug)]
pub struct TemplateFeature {
    /// Example numeric parameter stored as an expression.
    pub size: String,
    /// Example flag.
    pub enabled: bool,
}

impl Default for TemplateFeature {
    fn default() -> (f: TemplateFeature)
        ensures
            f.size@ == "10"@,
            f.enabled,
    {
        TemplateFeature {
            size: owned("10"),
            enabled: true,
        }
    }
}

impl TemplateFeature {
    pub fn kind(&self) -> (r: &'static str)
        ensures
            r@ == "template"@,
    {
        "template"
    }

    pub fn name(&self) -> (r: String)
        ensures
            r@ == "Template"@,
    {
        owned("Template")
    }

    pub fn params(&self) -> (v: Vec<ParamSpec>)
        ensures
            v@.len() == 2,
            is_length(v@[0], "size"@, "Size"@, self.size@),
            is_flag(v@[1], "enabled"@, "Enabled"@, self.enabled),
    {
        vec![
            ParamSpec::length("size", "Size", self.size.as_str()),
            ParamSpec::boolean("enabled", "Enabled", self.enabled),
        ]
    }

    /// Sets parameter `name`; an unknown name, or a value of the wrong
    /// kind, changes nothing and is an error.
    pub fn set_param(&mut self, name: &str, value: ParamValue) -> (r: Result<(), String>)
        ensures
            if name@ == "size"@ {
                match value {
                    ParamValue::Expr(x) => r is Ok && *final(self) == (TemplateFeature { size: x, ..*old(self) }),
                    _ => unknown_param(r, name@) && *final(self) == *old(self),
                }
            } else if name@ == "enabled"@ {
                match value {
                    ParamValue::Bool(x) => r is Ok && *final(self) == (TemplateFeature { enabled: x, ..*old(self) }),
                    _ => unknown_param(r, name@) && *final(self) == *old(self),
                }
            } else {
                unknown_param(r, name@) && *final(self) == *old(self)
            },
    {
        if str_eq(name, "size") {
            if let ParamValue::Expr(x) = value {
                self.size = x;
                return Ok(());
            }
        } else if str_eq(name, "enabled") {
            if let ParamValue::Bool(x) = value {
                self.enabled = x;
                return Ok(());
            }
        }
        Err(unknown_parameter(name))
    }
}

} // verus!
