//! Body transforms: Move/Copy, Scale, Mirror, Rectangular and circular
//! patterns.

use vstd::prelude::*;
use crate::document::{renumber, renumbered, Renumber};
use crate::features::{axis_type_list, axis_types, body_type_list, body_types, moved_ref};
use crate::param::{is_angle, is_choice, is_flag, is_length, is_ref, names_of, unknown_param, unknown_parameter, ParamSpec, ParamValue};
use crate::text::{decimal, owned, push_decimal, str_eq};

verus! {

/// The bodies a transform replaces: none when it keeps the original.
pub fn consumed(copy: bool, body: usize) -> (v: Vec<usize>)
    ensures
        v@ == if copy { Seq::<usize>::empty() } else { seq![body] },
{
    if copy {
        Vec::new()
    } else {
        vec![body]
    }
}

/// Moves and rotates a body, or a copy of it.
#[derive(Clone, Debug)]
pub struct MoveFeature {
    pub body: usize,
    pub dx: String,
    pub dy: String,
    pub dz: String,
    pub rx: String,
    pub ry: String,
    pub rz: String,
    pub copy: bool,
}

impl Default for MoveFeature {
    fn default() -> (f: MoveFeature)
        ensures
            f.body == 1,
            f.dx@ == "0"@,
            f.dy@ == "0"@,
            f.dz@ == "0"@,
            f.rx@ == "0"@,
            f.ry@ == "0"@,
            f.rz@ == "0"@,
            !f.copy,
    {
        MoveFeature {
            body: 1,
            dx: owned("0"),
            dy: owned("0"),
            dz: owned("0"),
            rx: owned("0"),
            ry: owned("0"),
            rz: owned("0"),
            copy: false,
        }
    }
}

impl MoveFeature {
    pub fn kind(&self) -> (r: &'static str)
        ensures
            r@ == "move"@,
    {
        "move"
    }

    pub fn name(&self) -> (r: String)
        ensures
            r@ == (if self.copy { "Copy"@ } else { "Move"@ }) + " body "@ + decimal(self.body as nat),
    {
        let mut r = String::new();
        if self.copy {
            r.append("Copy");
        } else {
            r.append("Move");
        }
        r.append(" body ");
        push_decimal(&mut r, self.body as u64);
        assert(r@ =~= (if self.copy { "Copy"@ } else { "Move"@ }) + " body "@ + decimal(self.body as nat));
        r
    }

    pub fn params(&self) -> (v: Vec<ParamSpec>)
        ensures
            v@.len() == 8,
            is_ref(v@[0], "body"@, "Body"@, body_type_list(), self.body),
            is_length(v@[1], "dx"@, "Move X"@, self.dx@),
            is_length(v@[2], "dy"@, "Move Y"@, self.dy@),
            is_length(v@[3], "dz"@, "Move Z"@, self.dz@),
            is_angle(v@[4], "rx"@, "Rotate X"@, self.rx@),
            is_angle(v@[5], "ry"@, "Rotate Y"@, self.ry@),
            is_angle(v@[6], "rz"@, "Rotate Z"@, self.rz@),
            is_flag(v@[7], "copy"@, "Keep original"@, self.copy),
    {
        vec![
            ParamSpec::feature_ref("body", "Body", body_types(), self.body),
            ParamSpec::length("dx", "Move X", self.dx.as_str()),
            ParamSpec::length("dy", "Move Y", self.dy.as_str()),
            ParamSpec::length("dz", "Move Z", self.dz.as_str()),
            ParamSpec::angle("rx", "Rotate X", self.rx.as_str()),
            ParamSpec::angle("ry", "Rotate Y", self.ry.as_str()),
            ParamSpec::angle("rz", "Rotate Z", self.rz.as_str()),
            ParamSpec::boolean("copy", "Keep original", self.copy),
        ]
    }

    /// Sets parameter `name`; an unknown name, or a value of the wrong
    /// kind, changes nothing and is an error.
    pub fn set_param(&mut self, name: &str, value: ParamValue) -> (r: Result<(), String>)
        ensures
            if name@ == "body"@ {
                match value {
                    ParamValue::FeatureRef(x) => r is Ok && *final(self) == (MoveFeature { body: x, ..*old(self) }),
                    _ => unknown_param(r, name@) && *final(self) == *old(self),
                }
            } else if name@ == "dx"@ {
                match value {
                    ParamValue::Expr(x) => r is Ok && *final(self) == (MoveFeature { dx: x, ..*old(self) }),
                    _ => unknown_param(r, name@) && *final(self) == *old(self),
                }
            } else if name@ == "dy"@ {
                match value {
                    ParamValue::Expr(x) => r is Ok && *final(self) == (MoveFeature { dy: x, ..*old(self) }),
                    _ => unknown_param(r, name@) && *final(self) == *old(self),
                }
            } else if name@ == "dz"@ {
                match value {
                    ParamValue::Expr(x) => r is Ok && *final(self) == (MoveFeature { dz: x, ..*old(self) }),
                    _ => unknown_param(r, name@) && *final(self) == *old(self),
                }
            } else if name@ == "rx"@ {
                match value {
                    ParamValue::Expr(x) => r is Ok && *final(self) == (MoveFeature { rx: x, ..*old(self) }),
                    _ => unknown_param(r, name@) && *final(self) == *old(self),
                }
            } else if name@ == "ry"@ {
                match value {
                    ParamValue::Expr(x) => r is Ok && *final(self) == (MoveFeature { ry: x, ..*old(self) }),
                    _ => unknown_param(r, name@) && *final(self) == *old(self),
                }
            } else if name@ == "rz"@ {
                match value {
                    ParamValue::Expr(x) => r is Ok && *final(self) == (MoveFeature { rz: x, ..*old(self) }),
                    _ => unknown_param(r, name@) && *final(self) == *old(self),
                }
            } else if name@ == "copy"@ {
                match value {
                    ParamValue::Bool(x) => r is Ok && *final(self) == (MoveFeature { copy: x, ..*old(self) }),
                    _ => unknown_param(r, name@) && *final(self) == *old(self),
                }
            } else {
                unknown_param(r, name@) && *final(self) == *old(self)
            },
    {
        if str_eq(name, "body") {
            if let ParamValue::FeatureRef(x) = value {
                self.body = x;
                return Ok(());
            }
        } else if str_eq(name, "dx") {
            if let ParamValue::Expr(x) = value {
                self.dx = x;
                return Ok(());
            }
        } else if str_eq(name, "dy") {
            if let ParamValue::Expr(x) = value {
                self.dy = x;
                return Ok(());
            }
        } else if str_eq(name, "dz") {
            if let ParamValue::Expr(x) = value {
                self.dz = x;
                return Ok(());
            }
        } else if str_eq(name, "rx") {
            if let ParamValue::Expr(x) = value {
                self.rx = x;
                return Ok(());
            }
        } else if str_eq(name, "ry") {
            if let ParamValue::Expr(x) = value {
                self.ry = x;
                return Ok(());
            }
        } else if str_eq(name, "rz") {
            if let ParamValue::Expr(x) = value {
                self.rz = x;
                return Ok(());
            }
        } else if str_eq(name, "copy") {
            if let ParamValue::Bool(x) = value {
                self.copy = x;
                return Ok(());
            }
        }
        Err(unknown_parameter(name))
    }

    /// Follows a renumbering of the document's features: each feature
    /// reference moves with its feature; one whose feature is gone is
    /// named as broken and set to the deleted mark `usize::MAX`.
    pub fn remap_refs(&mut self, m: &Renumber) -> (broken: Vec<&'static str>)
        ensures
            *final(self) == (MoveFeature { body: moved_ref(*m, old(self).body), ..*old(self) }),
            broken@.map_values(|s: &'static str| s@) == (if renumbered(*m, old(self).body) is None { seq!["body"@] } else { Seq::empty() }),
    {
        let ghost o = *self;
        let mut broken: Vec<&'static str> = Vec::new();
        match renumber(m, self.body) {
            Some(n) => {
                self.body = n;
            },
            None => {
                broken.push("body");
                self.body = usize::MAX;
            },
        }
        assert(broken@.map_values(|s: &'static str| s@) =~= (if renumbered(*m, o.body) is None { seq!["body"@] } else { Seq::empty() }));
        broken
    }
}

/// Scales a body, or a copy of it, about the origin.
#[derive(Clone, Debug)]
pub struct ScaleFeature {
    pub body: usize,
    pub factor: String,
    pub copy: bool,
}

impl Default for ScaleFeature {
    fn default() -> (f: ScaleFeature)
        ensures
            f.body == 1,
            f.factor@ == "2"@,
            !f.copy,
    {
        ScaleFeature {
            body: 1,
            factor: owned("2"),
            copy: false,
        }
    }
}

impl ScaleFeature {
    pub fn kind(&self) -> (r: &'static str)
        ensures
            r@ == "scale"@,
    {
        "scale"
    }

    pub fn name(&self) -> (r: String)
        ensures
            r@ == "Scale body "@ + decimal(self.body as nat) + " by "@ + self.factor@,
    {
        let mut r = String::new();
        r.append("Scale body ");
        push_decimal(&mut r, self.body as u64);
        r.append(" by ");
        r.append(self.factor.as_str());
        assert(r@ =~= "Scale body "@ + decimal(self.body as nat) + " by "@ + self.factor@);
        r
    }

    pub fn params(&self) -> (v: Vec<ParamSpec>)
        ensures
            v@.len() == 3,
            is_ref(v@[0], "body"@, "Body"@, body_type_list(), self.body),
            is_length(v@[1], "factor"@, "Factor"@, self.factor@),
            is_flag(v@[2], "copy"@, "Keep original"@, self.copy),
    {
        vec![
            ParamSpec::feature_ref("body", "Body", body_types(), self.body),
            ParamSpec::length("factor", "Factor", self.factor.as_str()),
            ParamSpec::boolean("copy", "Keep original", self.copy),
        ]
    }

    /// Sets parameter `name`; an unknown name, or a value of the wrong
    /// kind, changes nothing and is an error.
    pub fn set_param(&mut self, name: &str, value: ParamValue) -> (r: Result<(), String>)
        ensures
            if name@ == "body"@ {
                match value {
                    ParamValue::FeatureRef(x) => r is Ok && *final(self) == (ScaleFeature { body: x, ..*old(self) }),
                    _ => unknown_param(r, name@) && *final(self) == *old(self),
                }
            } else if name@ == "factor"@ {
                match value {
                    ParamValue::Expr(x) => r is Ok && *final(self) == (ScaleFeature { factor: x, ..*old(self) }),
                    _ => unknown_param(r, name@) && *final(self) == *old(self),
                }
            } else if name@ == "copy"@ {
                match value {
                    ParamValue::Bool(x) => r is Ok && *final(self) == (ScaleFeature { copy: x, ..*old(self) }),
                    _ => unknown_param(r, name@) && *final(self) == *old(self),
                }
            } else {
                unknown_param(r, name@) && *final(self) == *old(self)
            },
    {
        if str_eq(name, "body") {
            if let ParamValue::FeatureRef(x) = value {
                self.body = x;
                return Ok(());
            }
        } else if str_eq(name, "factor") {
            if let ParamValue::Expr(x) = value {
                self.factor = x;
                return Ok(());
            }
        } else if str_eq(name, "copy") {
            if let ParamValue::Bool(x) = value {
                self.copy = x;
                return Ok(());
            }
        }
        Err(unknown_parameter(name))
    }

    /// Follows a renumbering of the document's features: each feature
    /// reference moves with its feature; one whose feature is gone is
    /// named as broken and set to the deleted mark `usize::MAX`.
    pub fn remap_refs(&mut self, m: &Renumber) -> (broken: Vec<&'static str>)
        ensures
            *final(self) == (ScaleFeature { body: moved_ref(*m, old(self).body), ..*old(self) }),
            broken@.map_values(|s: &'static str| s@) == (if renumbered(*m, old(self).body) is None { seq!["body"@] } else { Seq::empty() }),
    {
        let ghost o = *self;
        let mut broken: Vec<&'static str> = Vec::new();
        match renumber(m, self.body) {
            Some(n) => {
                self.body = n;
            },
            None => {
                broken.push("body");
                self.body = usize::MAX;
            },
        }
        assert(broken@.map_values(|s: &'static str| s@) =~= (if renumbered(*m, o.body) is None { seq!["body"@] } else { Seq::empty() }));
        broken
    }
}

/// Mirrors a body across a datum plane.
#[derive(Clone, Debug)]
pub struct MirrorFeature {
    pub body: usize,
    pub plane: String,
    pub keep: bool,
}

impl Default for MirrorFeature {
    fn default() -> (f: MirrorFeature)
        ensures
            f.body == 1,
            f.plane@ == "YZ"@,
            f.keep,
    {
        MirrorFeature {
            body: 1,
            plane: owned("YZ"),
            keep: true,
        }
    }
}

impl MirrorFeature {
    pub fn kind(&self) -> (r: &'static str)
        ensures
            r@ == "mirror"@,
    {
        "mirror"
    }

    pub fn name(&self) -> (r: String)
        ensures
            r@ == "Mirror body "@ + decimal(self.body as nat) + " across "@ + self.plane@,
    {
        let mut r = String::new();
        r.append("Mirror body ");
        push_decimal(&mut r, self.body as u64);
        r.append(" across ");
        r.append(self.plane.as_str());
        assert(r@ =~= "Mirror body "@ + decimal(self.body as nat) + " across "@ + self.plane@);
        r
    }

    pub fn params(&self) -> (v: Vec<ParamSpec>)
        ensures
            v@.len() == 3,
            is_ref(v@[0], "body"@, "Body"@, body_type_list(), self.body),
            is_choice(v@[1], "plane"@, "Mirror plane"@, seq!["XY"@, "XZ"@, "YZ"@], self.plane@),
            is_flag(v@[2], "keep"@, "Keep original"@, self.keep),
    {
        let o0 = vec!["XY", "XZ", "YZ"];
        assert(names_of(o0@) =~= seq!["XY"@, "XZ"@, "YZ"@]);
        vec![
            ParamSpec::feature_ref("body", "Body", body_types(), self.body),
            ParamSpec::choice("plane", "Mirror plane", o0, self.plane.as_str()),
            ParamSpec::boolean("keep", "Keep original", self.keep),
        ]
    }

    /// Sets parameter `name`; an unknown name, or a value of the wrong
    /// kind, changes nothing and is an error.
    pub fn set_param(&mut self, name: &str, value: ParamValue) -> (r: Result<(), String>)
        ensures
            if name@ == "body"@ {
                match value {
                    ParamValue::FeatureRef(x) => r is Ok && *final(self) == (MirrorFeature { body: x, ..*old(self) }),
                    _ => unknown_param(r, name@) && *final(self) == *old(self),
                }
            } else if name@ == "plane"@ {
                match value {
                    ParamValue::Choice(x) => r is Ok && *final(self) == (MirrorFeature { plane: x, ..*old(self) }),
                    _ => unknown_param(r, name@) && *final(self) == *old(self),
                }
            } else if name@ == "keep"@ {
                match value {
                    ParamValue::Bool(x) => r is Ok && *final(self) == (MirrorFeature { keep: x, ..*old(self) }),
                    _ => unknown_param(r, name@) && *final(self) == *old(self),
                }
            } else {
                unknown_param(r, name@) && *final(self) == *old(self)
            },
    {
        if str_eq(name, "body") {
            if let ParamValue::FeatureRef(x) = value {
                self.body = x;
                return Ok(());
            }
        } else if str_eq(name, "plane") {
            if let ParamValue::Choice(x) = value {
                self.plane = x;
                return Ok(());
            }
        } else if str_eq(name, "keep") {
            if let ParamValue::Bool(x) = value {
                self.keep = x;
                return Ok(());
            }
        }
        Err(unknown_parameter(name))
    }

    /// Follows a renumbering of the document's features: each feature
    /// reference moves with its feature; one whose feature is gone is
    /// named as broken and set to the deleted mark `usize::MAX`.
    pub fn remap_refs(&mut self, m: &Renumber) -> (broken: Vec<&'static str>)
        ensures
            *final(self) == (MirrorFeature { body: moved_ref(*m, old(self).body), ..*old(self) }),
            broken@.map_values(|s: &'static str| s@) == (if renumbered(*m, old(self).body) is None { seq!["body"@] } else { Seq::empty() }),
    {
        let ghost o = *self;
        let mut broken: Vec<&'static str> = Vec::new();
        match renumber(m, self.body) {
            Some(n) => {
                self.body = n;
            },
            None => {
                broken.push("body");
                self.body = usize::MAX;
            },
        }
        assert(broken@.map_values(|s: &'static str| s@) =~= (if renumbered(*m, o.body) is None { seq!["body"@] } else { Seq::empty() }));
        broken
    }
}

/// Copies of a body on a grid along two directions.
#[derive(Clone, Debug)]
pub struct RectPatternFeature {
    pub body: usize,
    pub count_x: String,
    pub spacing_x: String,
    pub count_y: String,
    pub spacing_y: String,
    pub dir_x: String,
    pub dir_y: String,
}

impl Default for RectPatternFeature {
    fn default() -> (f: RectPatternFeature)
        ensures
            f.body == 1,
            f.count_x@ == "3"@,
            f.spacing_x@ == "30"@,
            f.count_y@ == "1"@,
            f.spacing_y@ == "30"@,
            f.dir_x@ == "X"@,
            f.dir_y@ == "Y"@,
    {
        RectPatternFeature {
            body: 1,
            count_x: owned("3"),
            spacing_x: owned("30"),
            count_y: owned("1"),
            spacing_y: owned("30"),
            dir_x: owned("X"),
            dir_y: owned("Y"),
        }
    }
}

impl RectPatternFeature {
    pub fn kind(&self) -> (r: &'static str)
        ensures
            r@ == "rect_pattern"@,
    {
        "rect_pattern"
    }

    pub fn name(&self) -> (r: String)
        ensures
            r@ == "Rectangular pattern ("@ + self.count_x@ + " x "@ + self.count_y@ + ")"@,
    {
        let mut r = String::new();
        r.append("Rectangular pattern (");
        r.append(self.count_x.as_str());
        r.append(" x ");
        r.append(self.count_y.as_str());
        r.append(")");
        assert(r@ =~= "Rectangular pattern ("@ + self.count_x@ + " x "@ + self.count_y@ + ")"@);
        r
    }

    pub fn params(&self) -> (v: Vec<ParamSpec>)
        ensures
            v@.len() == 7,
            is_ref(v@[0], "body"@, "Body"@, body_type_list(), self.body),
            is_choice(v@[1], "dir_x"@, "Direction 1"@, seq!["X"@, "Y"@, "Z"@], self.dir_x@),
            is_length(v@[2], "count_x"@, "Count 1"@, self.count_x@),
            is_length(v@[3], "spacing_x"@, "Spacing 1"@, self.spacing_x@),
            is_choice(v@[4], "dir_y"@, "Direction 2"@, seq!["X"@, "Y"@, "Z"@], self.dir_y@),
            is_length(v@[5], "count_y"@, "Count 2"@, self.count_y@),
            is_length(v@[6], "spacing_y"@, "Spacing 2"@, self.spacing_y@),
    {
        let o0 = vec!["X", "Y", "Z"];
        assert(names_of(o0@) =~= seq!["X"@, "Y"@, "Z"@]);
        let o1 = vec!["X", "Y", "Z"];
        assert(names_of(o1@) =~= seq!["X"@, "Y"@, "Z"@]);
        vec![
            ParamSpec::feature_ref("body", "Body", body_types(), self.body),
            ParamSpec::choice("dir_x", "Direction 1", o0, self.dir_x.as_str()),
            ParamSpec::length("count_x", "Count 1", self.count_x.as_str()),
            ParamSpec::length("spacing_x", "Spacing 1", self.spacing_x.as_str()),
            ParamSpec::choice("dir_y", "Direction 2", o1, self.dir_y.as_str()),
            ParamSpec::length("count_y", "Count 2", self.count_y.as_str()),
            ParamSpec::length("spacing_y", "Spacing 2", self.spacing_y.as_str()),
        ]
    }

    /// Sets parameter `name`; an unknown name, or a value of the wrong
    /// kind, changes nothing and is an error.
    pub fn set_param(&mut self, name: &str, value: ParamValue) -> (r: Result<(), String>)
        ensures
            if name@ == "body"@ {
                match value {
                    ParamValue::FeatureRef(x) => r is Ok && *final(self) == (RectPatternFeature { body: x, ..*old(self) }),
                    _ => unknown_param(r, name@) && *final(self) == *old(self),
                }
            } else if name@ == "dir_x"@ {
                match value {
                    ParamValue::Choice(x) => r is Ok && *final(self) == (RectPatternFeature { dir_x: x, ..*old(self) }),
                    _ => unknown_param(r, name@) && *final(self) == *old(self),
                }
            } else if name@ == "dir_y"@ {
                match value {
                    ParamValue::Choice(x) => r is Ok && *final(self) == (RectPatternFeature { dir_y: x, ..*old(self) }),
                    _ => unknown_param(r, name@) && *final(self) == *old(self),
                }
            } else if name@ == "count_x"@ {
                match value {
                    ParamValue::Expr(x) => r is Ok && *final(self) == (RectPatternFeature { count_x: x, ..*old(self) }),
                    _ => unknown_param(r, name@) && *final(self) == *old(self),
                }
            } else if name@ == "spacing_x"@ {
                match value {
                    ParamValue::Expr(x) => r is Ok && *final(self) == (RectPatternFeature { spacing_x: x, ..*old(self) }),
                    _ => unknown_param(r, name@) && *final(self) == *old(self),
                }
            } else if name@ == "count_y"@ {
                match value {
                    ParamValue::Expr(x) => r is Ok && *final(self) == (RectPatternFeature { count_y: x, ..*old(self) }),
                    _ => unknown_param(r, name@) && *final(self) == *old(self),
                }
            } else if name@ == "spacing_y"@ {
                match value {
                    ParamValue::Expr(x) => r is Ok && *final(self) == (RectPatternFeature { spacing_y: x, ..*old(self) }),
                    _ => unknown_param(r, name@) && *final(self) == *old(self),
                }
            } else {
                unknown_param(r, name@) && *final(self) == *old(self)
            },
    {
        if str_eq(name, "body") {
            if let ParamValue::FeatureRef(x) = value {
                self.body = x;
                return Ok(());
            }
        } else if str_eq(name, "dir_x") {
            if let ParamValue::Choice(x) = value {
                self.dir_x = x;
                return Ok(());
            }
        } else if str_eq(name, "dir_y") {
            if let ParamValue::Choice(x) = value {
                self.dir_y = x;
                return Ok(());
            }
        } else if str_eq(name, "count_x") {
            if let ParamValue::Expr(x) = value {
                self.count_x = x;
                return Ok(());
            }
        } else if str_eq(name, "spacing_x") {
            if let ParamValue::Expr(x) = value {
                self.spacing_x = x;
                return Ok(());
            }
        } else if str_eq(name, "count_y") {
            if let ParamValue::Expr(x) = value {
                self.count_y = x;
                return Ok(());
            }
        } else if str_eq(name, "spacing_y") {
            if let ParamValue::Expr(x) = value {
                self.spacing_y = x;
                return Ok(());
            }
        }
        Err(unknown_parameter(name))
    }

    /// Follows a renumbering of the document's features: each feature
    /// reference moves with its feature; one whose feature is gone is
    /// named as broken and set to the deleted mark `usize::MAX`.
    pub fn remap_refs(&mut self, m: &Renumber) -> (broken: Vec<&'static str>)
        ensures
            *final(self) == (RectPatternFeature { body: moved_ref(*m, old(self).body), ..*old(self) }),
            broken@.map_values(|s: &'static str| s@) == (if renumbered(*m, old(self).body) is None { seq!["body"@] } else { Seq::empty() }),
    {
        let ghost o = *self;
        let mut broken: Vec<&'static str> = Vec::new();
        match renumber(m, self.body) {
            Some(n) => {
                self.body = n;
            },
            None => {
                broken.push("body");
                self.body = usize::MAX;
            },
        }
        assert(broken@.map_values(|s: &'static str| s@) =~= (if renumbered(*m, o.body) is None { seq!["body"@] } else { Seq::empty() }));
        broken
    }
}

/// Copies of a body turned about a datum axis or an axis feature.
#[derive(Clone, Debug)]
pub struct CircPatternFeature {
    pub body: usize,
    pub count: String,
    pub total_angle: String,
    /// "X", "Y", "Z", or "Feature" for an axis feature.
    pub axis: String,
    pub axis_feature: usize,
}

impl Default for CircPatternFeature {
    fn default() -> (f: CircPatternFeature)
        ensures
            f.body == 1,
            f.count@ == "6"@,
            f.total_angle@ == "360"@,
            f.axis@ == "Z"@,
            f.axis_feature == 0,
    {
        CircPatternFeature {
            body: 1,
            count: owned("6"),
            total_angle: owned("360"),
            axis: owned("Z"),
            axis_feature: 0,
        }
    }
}

impl CircPatternFeature {
    /// Whether the axis is an axis feature's.
    pub open spec fn on_feature_axis(&self) -> bool {
        self.axis@ == "Feature"@
    }

    pub fn kind(&self) -> (r: &'static str)
        ensures
            r@ == "circ_pattern"@,
    {
        "circ_pattern"
    }

    pub fn name(&self) -> (r: String)
        ensures
            r@ == "Circular pattern ("@ + self.count@ + " about "@ + self.axis@ + ")"@,
    {
        let mut r = String::new();
        r.append("Circular pattern (");
        r.append(self.count.as_str());
        r.append(" about ");
        r.append(self.axis.as_str());
        r.append(")");
        assert(r@ =~= "Circular pattern ("@ + self.count@ + " about "@ + self.axis@ + ")"@);
        r
    }

    /// The body and the axis; the axis feature only when the axis is an
    /// axis feature's; then the count and the total angle.
    pub fn params(&self) -> (v: Vec<ParamSpec>)
        ensures
            v@.len() == if self.on_feature_axis() { 5int } else { 4int },
            is_ref(v@[0], "body"@, "Body"@, body_type_list(), self.body),
            is_choice(v@[1], "axis"@, "Axis"@, seq!["X"@, "Y"@, "Z"@, "Feature"@], self.axis@),
            self.on_feature_axis() ==> is_ref(v@[2], "axis_feature"@, "Axis feature"@, axis_type_list(), self.axis_feature),
            is_length(v@[v@.len() - 2], "count"@, "Count"@, self.count@),
            is_angle(v@[v@.len() - 1], "total_angle"@, "Total angle"@, self.total_angle@),
    {
        let o = vec!["X", "Y", "Z", "Feature"];
        assert(names_of(o@) =~= seq!["X"@, "Y"@, "Z"@, "Feature"@]);
        let mut v = vec![
            ParamSpec::feature_ref("body", "Body", body_types(), self.body),
            ParamSpec::choice("axis", "Axis", o, self.axis.as_str()),
        ];
        if str_eq(self.axis.as_str(), "Feature") {
            v.push(ParamSpec::feature_ref("axis_feature", "Axis feature", axis_types(), self.axis_feature));
        }
        v.push(ParamSpec::length("count", "Count", self.count.as_str()));
        v.push(ParamSpec::angle("total_angle", "Total angle", self.total_angle.as_str()));
        v
    }

    /// Sets parameter `name`; an unknown name, or a value of the wrong
    /// kind, changes nothing and is an error.
    pub fn set_param(&mut self, name: &str, value: ParamValue) -> (r: Result<(), String>)
        ensures
            if name@ == "body"@ {
                match value {
                    ParamValue::FeatureRef(x) => r is Ok && *final(self) == (CircPatternFeature { body: x, ..*old(self) }),
                    _ => unknown_param(r, name@) && *final(self) == *old(self),
                }
            } else if name@ == "axis"@ {
                match value {
                    ParamValue::Choice(x) => r is Ok && *final(self) == (CircPatternFeature { axis: x, ..*old(self) }),
                    _ => unknown_param(r, name@) && *final(self) == *old(self),
                }
            } else if name@ == "axis_feature"@ {
                match value {
                    ParamValue::FeatureRef(x) => r is Ok && *final(self) == (CircPatternFeature { axis_feature: x, ..*old(self) }),
                    _ => unknown_param(r, name@) && *final(self) == *old(self),
                }
            } else if name@ == "count"@ {
                match value {
                    ParamValue::Expr(x) => r is Ok && *final(self) == (CircPatternFeature { count: x, ..*old(self) }),
                    _ => unknown_param(r, name@) && *final(self) == *old(self),
                }
            } else if name@ == "total_angle"@ {
                match value {
                    ParamValue::Expr(x) => r is Ok && *final(self) == (CircPatternFeature { total_angle: x, ..*old(self) }),
                    _ => unknown_param(r, name@) && *final(self) == *old(self),
                }
            } else {
                unknown_param(r, name@) && *final(self) == *old(self)
            },
    {
        if str_eq(name, "body") {
            if let ParamValue::FeatureRef(x) = value {
                self.body = x;
                return Ok(());
            }
        } else if str_eq(name, "axis") {
            if let ParamValue::Choice(x) = value {
                self.axis = x;
                return Ok(());
            }
        } else if str_eq(name, "axis_feature") {
            if let ParamValue::FeatureRef(x) = value {
                self.axis_feature = x;
                return Ok(());
            }
        } else if str_eq(name, "count") {
            if let ParamValue::Expr(x) = value {
                self.count = x;
                return Ok(());
            }
        } else if str_eq(name, "total_angle") {
            if let ParamValue::Expr(x) = value {
                self.total_angle = x;
                return Ok(());
            }
        }
        Err(unknown_parameter(name))
    }

    /// Follows a renumbering of the document's features: the body, and the
    /// axis feature while the axis is an axis feature's, move with their
    /// features; one whose feature is gone is named as broken and set to
    /// the deleted mark `usize::MAX`.
    pub fn remap_refs(&mut self, m: &Renumber) -> (broken: Vec<&'static str>)
        ensures
            *final(self) == (CircPatternFeature {
                body: moved_ref(*m, old(self).body),
                axis_feature: if old(self).on_feature_axis() {
                    moved_ref(*m, old(self).axis_feature)
                } else {
                    old(self).axis_feature
                },
                ..*old(self)
            }),
            broken@.map_values(|s: &'static str| s@) == (if renumbered(*m, old(self).body) is None {
                seq!["body"@]
            } else {
                Seq::empty()
            }) + (if old(self).on_feature_axis() && renumbered(*m, old(self).axis_feature) is None {
                seq!["axis_feature"@]
            } else {
                Seq::empty()
            }),
    {
        let ghost o = *self;
        let mut broken: Vec<&'static str> = Vec::new();
        match renumber(m, self.body) {
            Some(n) => {
                self.body = n;
            },
            None => {
                broken.push("body");
                self.body = usize::MAX;
            },
        }
        let ghost mid = broken@;
        if str_eq(self.axis.as_str(), "Feature") {
            match renumber(m, self.axis_feature) {
                Some(n) => {
                    self.axis_feature = n;
                },
                None => {
                    broken.push("axis_feature");
                    self.axis_feature = usize::MAX;
                },
            }
        }
        assert(broken@.map_values(|s: &'static str| s@) =~= (if renumbered(*m, o.body) is None {
            seq!["body"@]
        } else {
            Seq::empty()
        }) + (if o.on_feature_axis() && renumbered(*m, o.axis_feature) is None {
            seq!["axis_feature"@]
        } else {
            Seq::empty()
        }));
        broken
    }
}

} // verus!
