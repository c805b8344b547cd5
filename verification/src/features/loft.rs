//! Loft: skin between the profiles of two or more sketches.

use vstd::prelude::*;
use crate::param::{is_text, spec, unknown_param, unknown_parameter, ParamSpec, ParamValue};
use crate::document::Renumber;
use crate::features::{comma_list, index_list, lemma_remapped_len, parse_index_list, remap_indices, remapped, write_index_list};
use crate::text::{owned, str_eq};

verus! {

/// Skins between the profiles of two or more sketches.
#[derive(Clone, Debug)]
pub struct LoftFeature {
    /// Comma-separated sketch feature indices, in order.
    pub sections: String,
}

impl Default for LoftFeature {
    fn default() -> (f: LoftFeature)
        ensures
            f.sections@ == "0, 1"@,
    {
        LoftFeature {
            sections: owned("0, 1"),
        }
    }
}

impl LoftFeature {
    pub fn kind(&self) -> (r: &'static str)
        ensures
            r@ == "loft"@,
    {
        "loft"
    }

    pub fn name(&self) -> (r: String)
        ensures
            r@ == "Loft ("@ + self.sections@ + ")"@,
    {
        let mut r = String::new();
        r.append("Loft (");
        r.append(self.sections.as_str());
        r.append(")");
        assert(r@ =~= "Loft ("@ + self.sections@ + ")"@);
        r
    }

    pub fn params(&self) -> (v: Vec<ParamSpec>)
        ensures
            v@.len() == 1,
            is_text(v@[0], "sections"@, "Sketches (comma list)"@, self.sections@),
    {
        vec![
            spec("sections", "Sketches (comma list)", self.sections.as_str()),
        ]
    }

    /// Sets parameter `name`; an unknown name, or a value of the wrong
    /// kind, changes nothing and is an error.
    pub fn set_param(&mut self, name: &str, value: ParamValue) -> (r: Result<(), String>)
        ensures
            if name@ == "sections"@ {
                match value {
                    ParamValue::Expr(x) => r is Ok && *final(self) == (LoftFeature { sections: x, ..*old(self) }),
                    _ => unknown_param(r, name@) && *final(self) == *old(self),
                }
            } else {
                unknown_param(r, name@) && *final(self) == *old(self)
            },
    {
        if str_eq(name, "sections") {
            if let ParamValue::Expr(x) = value {
                self.sections = x;
                return Ok(());
            }
        }
        Err(unknown_parameter(name))
    }
}

impl LoftFeature {
    /// Follows a renumbering of the document's features: each section moves
    /// with its feature, one whose feature is gone is dropped, and the list
    /// is written anew. Names "sections" once for each section dropped.
    pub fn remap_refs(&mut self, m: &Renumber) -> (broken: Vec<&'static str>)
        ensures
            final(self).sections@ == comma_list(remapped(index_list(old(self).sections@), *m)),
            broken@.len() == index_list(old(self).sections@).len() - remapped(
                index_list(old(self).sections@),
                *m,
            ).len(),
            forall|k: int| 0 <= k < broken@.len() ==> #[trigger] broken@[k]@ == "sections"@,
    {
        let old = parse_index_list(self.sections.as_str());
        let new = remap_indices(old.as_slice(), m);
        proof {
            lemma_remapped_len(old@, *m);
        }
        let lost = old.len() - new.len();
        let mut broken: Vec<&'static str> = Vec::new();
        while broken.len() < lost
            invariant
                broken@.len() <= lost,
                forall|k: int| 0 <= k < broken@.len() ==> #[trigger] broken@[k]@ == "sections"@,
            decreases lost - broken@.len(),
        {
            broken.push("sections");
        }
        self.sections = write_index_list(new.as_slice());
        broken
    }
}

} // verus!
