//! Combine: join, cut, or intersect two bodies.

use vstd::prelude::*;
use crate::document::{renumber, renumbered, Renumber};
use crate::features::{body_type_list, body_types, moved_ref};
use crate::param::{is_choice, is_ref, names_of, unknown_param, unknown_parameter, ParamSpec, ParamValue};
use crate::text::{decimal, owned, push_decimal, str_eq};

verus! {

/// Joins, cuts, or intersects two bodies.
#[derive(Clone, Debug)]
pub struct CombineFeature {
    pub body: usize,
    pub tool: usize,
    pub op: String,
}

impl Default for CombineFeature {
    fn default() -> (f: CombineFeature)
        ensures
            f.body == 1,
            f.tool == 2,
            f.op@ == "join"@,
    {
        CombineFeature {
            body: 1,
            tool: 2,
            op: owned("join"),
        }
    }
}

impl CombineFeature {
    pub fn kind(&self) -> (r: &'static str)
        ensures
            r@ == "combine"@,
    {
        "combine"
    }

    pub fn name(&self) -> (r: String)
        ensures
            r@ == "Combine "@ + self.op@ + " body "@ + decimal(self.body as nat) + " with "@ + decimal(self.tool as nat),
    {
        let mut r = String::new();
        r.append("Combine ");
        r.append(self.op.as_str());
        r.append(" body ");
        push_decimal(&mut r, self.body as u64);
        r.append(" with ");
        push_decimal(&mut r, self.tool as u64);
        assert(r@ =~= "Combine "@ + self.op@ + " body "@ + decimal(self.body as nat) + " with "@ + decimal(self.tool as nat));
        r
    }

    pub fn params(&self) -> (v: Vec<ParamSpec>)
        ensures
            v@.len() == 3,
            is_ref(v@[0], "body"@, "Target body"@, body_type_list(), self.body),
            is_ref(v@[1], "tool"@, "Tool body"@, body_type_list(), self.tool),
            is_choice(v@[2], "op"@, "Operation"@, seq!["join"@, "cut"@, "intersect"@], self.op@),
    {
        let o0 = vec!["join", "cut", "intersect"];
        assert(names_of(o0@) =~= seq!["join"@, "cut"@, "intersect"@]);
        vec![
            ParamSpec::feature_ref("body", "Target body", body_types(), self.body),
            ParamSpec::feature_ref("tool", "Tool body", body_types(), self.tool),
            ParamSpec::choice("op", "Operation", o0, self.op.as_str()),
        ]
    }

    /// Sets parameter `name`; an unknown name, or a value of the wrong
    /// kind, changes nothing and is an error.
    pub fn set_param(&mut self, name: &str, value: ParamValue) -> (r: Result<(), String>)
        ensures
            if name@ == "body"@ {
                match value {
                    ParamValue::FeatureRef(x) => r is Ok && *final(self) == (CombineFeature { body: x, ..*old(self) }),
                    _ => unknown_param(r, name@) && *final(self) == *old(self),
                }
            } else if name@ == "tool"@ {
                match value {
                    ParamValue::FeatureRef(x) => r is Ok && *final(self) == (CombineFeature { tool: x, ..*old(self) }),
                    _ => unknown_param(r, name@) && *final(self) == *old(self),
                }
            } else if name@ == "op"@ {
                match value {
                    ParamValue::Choice(x) => r is Ok && *final(self) == (CombineFeature { op: x, ..*old(self) }),
                    _ => unknown_param(r, name@) && *final(self) == *old(self),
                }
            } else {
                unknown_param(r, name@) && *final(self) == *old(self)
            },
    {
        if str_eq(name, "body") {
            if let ParamValue::FeatureRef(x) = value {
                self.body = x;
                return Ok(());
            }
        } else if str_eq(name, "tool") {
            if let ParamValue::FeatureRef(x) = value {
                self.tool = x;
                return Ok(());
            }
        } else if str_eq(name, "op") {
            if let ParamValue::Choice(x) = value {
                self.op = x;
                return Ok(());
            }
        }
        Err(unknown_parameter(name))
    }

    /// Follows a renumbering of the document's features: each feature
    /// reference moves with its feature; one whose feature is gone is
    /// named as broken and set to the deleted mark `usize::MAX`.
    pub fn remap_refs(&mut self, m: &Renumber) -> (broken: Vec<&'static str>)
        ensures
            *final(self) == (CombineFeature { body: moved_ref(*m, old(self).body), tool: moved_ref(*m, old(self).tool), ..*old(self) }),
            broken@.map_values(|s: &'static str| s@) == (if renumbered(*m, old(self).body) is None { seq!["body"@] } else { Seq::empty() }) + (if renumbered(*m, old(self).tool) is None { seq!["tool"@] } else { Seq::empty() }),
    {
        let ghost o = *self;
        let mut broken: Vec<&'static str> = Vec::new();
        match renumber(m, self.body) {
            Some(n) => {
                self.body = n;
            },
            None => {
                broken.push("body");
                self.body = usize::MAX;
            },
        }
        match renumber(m, self.tool) {
            Some(n) => {
                self.tool = n;
            },
            None => {
                broken.push("tool");
                self.tool = usize::MAX;
            },
        }
        assert(broken@.map_values(|s: &'static str| s@) =~= (if renumbered(*m, o.body) is None { seq!["body"@] } else { Seq::empty() }) + (if renumbered(*m, o.tool) is None { seq!["tool"@] } else { Seq::empty() }));
        broken
    }
}

} // verus!
