//! Embossing: text, QR codes and textures raised from or cut into a plane.

use vstd::prelude::*;
use crate::document::{renumber, renumbered, Renumber};
use crate::features::{body_type_list, body_types, plane_type_list, plane_types, moved_ref, moved_opt};
use crate::param::{is_choice, is_flag, is_font, is_length, is_ref, is_text, names_of, spec, unknown_param, unknown_parameter, ParamKind, ParamSpec, ParamValue};
use crate::fonts::{display_name, names_font, FontEntry};
use crate::text::{owned, str_eq};

verus! {

/// Embossed text, one body per letter.
///
/// The plane of a picked face, when `plane` is "Face", is kept with the
/// geometry and is not part of this record.
#[derive(Clone, Debug)]
pub struct TextFeature {
    pub text: String,
    pub font_path: String,
    pub plane: String,
    pub plane_feature: Option<usize>,
    pub x: String,
    pub y: String,
    pub z: String,
    pub size: String,
    pub height: String,
    pub center: bool,
    /// Grow every stroke outward by this distance (mm), to make thin fonts
    /// printable. Zero keeps the font as drawn.
    pub thicken: String,
    /// "new" (separate bodies), "join", or "cut" into `target`.
    pub operation: String,
    pub target: usize,
}

impl Default for TextFeature {
    fn default() -> (f: TextFeature)
        ensures
            f.text@ == "Anvil"@,
            f.font_path@ == ""@,
            f.plane@ == "XY"@,
            f.plane_feature is None,
            f.x@ == "0"@,
            f.y@ == "0"@,
            f.z@ == "0"@,
            f.size@ == "8"@,
            f.height@ == "1"@,
            f.center,
            f.thicken@ == "0"@,
            f.operation@ == "new"@,
            f.target == 0,
    {
        TextFeature {
            text: owned("Anvil"),
            font_path: owned(""),
            plane: owned("XY"),
            plane_feature: None,
            x: owned("0"),
            y: owned("0"),
            z: owned("0"),
            size: owned("8"),
            height: owned("1"),
            center: true,
            thicken: owned("0"),
            operation: owned("new"),
            target: 0,
        }
    }
}

impl TextFeature {
    pub fn kind(&self) -> (r: &'static str)
        ensures
            r@ == "text"@,
    {
        "text"
    }

    /// The feature's name: the text and its font, the font read as
    /// `display_name` reads it against the catalogue `cat`.
    pub fn name(&self, cat: &[FontEntry]) -> (r: String)
        ensures
            exists|d: Seq<char>|
                names_font(self.font_path@, cat@, d) && r@ == "Text \""@ + self.text@ + "\" ("@ + d + ")"@,
    {
        let d = display_name(self.font_path.as_str(), cat);
        let mut r = String::new();
        r.append("Text \"");
        r.append(self.text.as_str());
        r.append("\" (");
        r.append(d.as_str());
        r.append(")");
        assert(r@ =~= "Text \""@ + self.text@ + "\" ("@ + d@ + ")"@);
        r
    }

    pub fn params(&self) -> (v: Vec<ParamSpec>)
        ensures
            v@.len() == 11 + (if self.operation@ != "new"@ { 1int } else { 0int }) + (if self.plane@ == "Feature"@ { 1int } else { 0int }),
            is_text(v@[0], "text"@, "Text"@, self.text@),
            is_font(v@[1], "font_path"@, "Font"@, self.font_path@),
            is_choice(v@[2], "plane"@, "Plane"@, seq!["XY"@, "XZ"@, "YZ"@, "Feature"@, "Face"@], self.plane@),
            is_length(v@[3], "x"@, "X on plane"@, self.x@),
            is_length(v@[4], "y"@, "Y on plane"@, self.y@),
            is_length(v@[5], "z"@, "Offset along normal"@, self.z@),
            is_length(v@[6], "size"@, "Font size (em)"@, self.size@),
            is_length(v@[7], "height"@, "Emboss height"@, self.height@),
            is_flag(v@[8], "center"@, "Centre horizontally"@, self.center),
            is_length(v@[9], "thicken"@, "Thicken strokes (mm)"@, self.thicken@),
            is_choice(v@[10], "operation"@, "Operation"@, seq!["new"@, "join"@, "cut"@], self.operation@),
            self.operation@ != "new"@ ==> is_ref(v@[11], "target"@, "Target body"@, body_type_list(), self.target),
            self.plane@ == "Feature"@ ==> is_ref(v@[11 + (if self.operation@ != "new"@ { 1int } else { 0int })], "plane_feature"@, "Plane feature"@, plane_type_list(), match self.plane_feature { Some(i) => i, None => 0usize }),
    {
        let o0 = vec!["XY", "XZ", "YZ", "Feature", "Face"];
        assert(names_of(o0@) =~= seq!["XY"@, "XZ"@, "YZ"@, "Feature"@, "Face"@]);
        let o1 = vec!["new", "join", "cut"];
        assert(names_of(o1@) =~= seq!["new"@, "join"@, "cut"@]);
        let mut v = vec![
            spec("text", "Text", self.text.as_str()),
            ParamSpec { name: "font_path", label: "Font", kind: ParamKind::Font, value: ParamValue::Expr(self.font_path.clone()) },
            ParamSpec::choice("plane", "Plane", o0, self.plane.as_str()),
            ParamSpec::length("x", "X on plane", self.x.as_str()),
            ParamSpec::length("y", "Y on plane", self.y.as_str()),
            ParamSpec::length("z", "Offset along normal", self.z.as_str()),
            ParamSpec::length("size", "Font size (em)", self.size.as_str()),
            ParamSpec::length("height", "Emboss height", self.height.as_str()),
            ParamSpec::boolean("center", "Centre horizontally", self.center),
            ParamSpec::length("thicken", "Thicken strokes (mm)", self.thicken.as_str()),
            ParamSpec::choice("operation", "Operation", o1, self.operation.as_str()),
        ];
        if !str_eq(self.operation.as_str(), "new") {
            v.push(ParamSpec::feature_ref("target", "Target body", body_types(), self.target));
        }
        if str_eq(self.plane.as_str(), "Feature") {
            v.push(ParamSpec::feature_ref("plane_feature", "Plane feature", plane_types(), match self.plane_feature { Some(i) => i, None => 0 }));
        }
        v
    }

    /// Sets parameter `name`; an unknown name, or a value of the wrong
    /// kind, changes nothing and is an error.
    pub fn set_param(&mut self, name: &str, value: ParamValue) -> (r: Result<(), String>)
        ensures
            if name@ == "operation"@ {
                match value {
                    ParamValue::Choice(x) => r is Ok && *final(self) == (TextFeature { operation: x, ..*old(self) }),
                    _ => unknown_param(r, name@) && *final(self) == *old(self),
                }
            } else if name@ == "target"@ {
                match value {
                    ParamValue::FeatureRef(x) => r is Ok && *final(self) == (TextFeature { target: x, ..*old(self) }),
                    _ => unknown_param(r, name@) && *final(self) == *old(self),
                }
            } else if name@ == "text"@ {
                match value {
                    ParamValue::Expr(x) => r is Ok && *final(self) == (TextFeature { text: x, ..*old(self) }),
                    _ => unknown_param(r, name@) && *final(self) == *old(self),
                }
            } else if name@ == "font_path"@ {
                match value {
                    ParamValue::Expr(x) => r is Ok && *final(self) == (TextFeature { font_path: x, ..*old(self) }),
                    _ => unknown_param(r, name@) && *final(self) == *old(self),
                }
            } else if name@ == "plane"@ {
                match value {
                    ParamValue::Choice(x) => r is Ok && *final(self) == (TextFeature { plane: x, ..*old(self) }),
                    _ => unknown_param(r, name@) && *final(self) == *old(self),
                }
            } else if name@ == "plane_feature"@ {
                match value {
                    ParamValue::FeatureRef(x) => r is Ok && *final(self) == (TextFeature { plane_feature: Some(x), ..*old(self) }),
                    _ => unknown_param(r, name@) && *final(self) == *old(self),
                }
            } else if name@ == "x"@ {
                match value {
                    ParamValue::Expr(x) => r is Ok && *final(self) == (TextFeature { x: x, ..*old(self) }),
                    _ => unknown_param(r, name@) && *final(self) == *old(self),
                }
            } else if name@ == "y"@ {
                match value {
                    ParamValue::Expr(x) => r is Ok && *final(self) == (TextFeature { y: x, ..*old(self) }),
                    _ => unknown_param(r, name@) && *final(self) == *old(self),
                }
            } else if name@ == "z"@ {
                match value {
                    ParamValue::Expr(x) => r is Ok && *final(self) == (TextFeature { z: x, ..*old(self) }),
                    _ => unknown_param(r, name@) && *final(self) == *old(self),
                }
            } else if name@ == "size"@ {
                match value {
                    ParamValue::Expr(x) => r is Ok && *final(self) == (TextFeature { size: x, ..*old(self) }),
                    _ => unknown_param(r, name@) && *final(self) == *old(self),
                }
            } else if name@ == "height"@ {
                match value {
                    ParamValue::Expr(x) => r is Ok && *final(self) == (TextFeature { height: x, ..*old(self) }),
                    _ => unknown_param(r, name@) && *final(self) == *old(self),
                }
            } else if name@ == "center"@ {
                match value {
                    ParamValue::Bool(x) => r is Ok && *final(self) == (TextFeature { center: x, ..*old(self) }),
                    _ => unknown_param(r, name@) && *final(self) == *old(self),
                }
            } else if name@ == "thicken"@ {
                match value {
                    ParamValue::Expr(x) => r is Ok && *final(self) == (TextFeature { thicken: x, ..*old(self) }),
                    _ => unknown_param(r, name@) && *final(self) == *old(self),
                }
            } else {
                unknown_param(r, name@) && *final(self) == *old(self)
            },
    {
        if str_eq(name, "operation") {
            if let ParamValue::Choice(x) = value {
                self.operation = x;
                return Ok(());
            }
        } else if str_eq(name, "target") {
            if let ParamValue::FeatureRef(x) = value {
                self.target = x;
                return Ok(());
            }
        } else if str_eq(name, "text") {
            if let ParamValue::Expr(x) = value {
                self.text = x;
                return Ok(());
            }
        } else if str_eq(name, "font_path") {
            if let ParamValue::Expr(x) = value {
                self.font_path = x;
                return Ok(());
            }
        } else if str_eq(name, "plane") {
            if let ParamValue::Choice(x) = value {
                self.plane = x;
                return Ok(());
            }
        } else if str_eq(name, "plane_feature") {
            if let ParamValue::FeatureRef(x) = value {
                self.plane_feature = Some(x);
                return Ok(());
            }
        } else if str_eq(name, "x") {
            if let ParamValue::Expr(x) = value {
                self.x = x;
                return Ok(());
            }
        } else if str_eq(name, "y") {
            if let ParamValue::Expr(x) = value {
                self.y = x;
                return Ok(());
            }
        } else if str_eq(name, "z") {
            if let ParamValue::Expr(x) = value {
                self.z = x;
                return Ok(());
            }
        } else if str_eq(name, "size") {
            if let ParamValue::Expr(x) = value {
                self.size = x;
                return Ok(());
            }
        } else if str_eq(name, "height") {
            if let ParamValue::Expr(x) = value {
                self.height = x;
                return Ok(());
            }
        } else if str_eq(name, "center") {
            if let ParamValue::Bool(x) = value {
                self.center = x;
                return Ok(());
            }
        } else if str_eq(name, "thicken") {
            if let ParamValue::Expr(x) = value {
                self.thicken = x;
                return Ok(());
            }
        }
        Err(unknown_parameter(name))
    }

    /// Follows a renumbering of the document's features: each feature
    /// reference moves with its feature; one whose feature is gone is
    /// named as broken and set to the deleted mark `usize::MAX`.
    pub fn remap_refs(&mut self, m: &Renumber) -> (broken: Vec<&'static str>)
        ensures
            *final(self) == (TextFeature { target: if old(self).operation@ != "new"@ { moved_ref(*m, old(self).target) } else { old(self).target }, plane_feature: if old(self).plane@ == "Feature"@ { moved_opt(*m, old(self).plane_feature) } else { old(self).plane_feature }, ..*old(self) }),
            broken@.map_values(|s: &'static str| s@) == (if old(self).operation@ != "new"@ && renumbered(*m, old(self).target) is None { seq!["target"@] } else { Seq::empty() }) + (if old(self).plane@ == "Feature"@ && renumbered(*m, match old(self).plane_feature { Some(i) => i, None => 0usize }) is None { seq!["plane_feature"@] } else { Seq::empty() }),
    {
        let ghost o = *self;
        let mut broken: Vec<&'static str> = Vec::new();
        if !str_eq(self.operation.as_str(), "new") {
            match renumber(m, self.target) {
                Some(n) => {
                    self.target = n;
                },
                None => {
                    broken.push("target");
                    self.target = usize::MAX;
                },
            }
        }
        if str_eq(self.plane.as_str(), "Feature") {
            let shown = match self.plane_feature { Some(i) => i, None => 0 };
            match renumber(m, shown) {
                Some(n) => if n != shown {
                    self.plane_feature = Some(n);
                },
                None => {
                    broken.push("plane_feature");
                    self.plane_feature = Some(usize::MAX);
                },
            }
        }
        assert(broken@.map_values(|s: &'static str| s@) =~= (if o.operation@ != "new"@ && renumbered(*m, o.target) is None { seq!["target"@] } else { Seq::empty() }) + (if o.plane@ == "Feature"@ && renumbered(*m, match o.plane_feature { Some(i) => i, None => 0usize }) is None { seq!["plane_feature"@] } else { Seq::empty() }));
        broken
    }
}

/// An embossed QR code for a URL or text.
///
/// The plane of a picked face, when `plane` is "Face", is kept with the
/// geometry and is not part of this record.
#[derive(Clone, Debug)]
pub struct QrFeature {
    pub data: String,
    pub plane: String,
    pub plane_feature: Option<usize>,
    pub x: String,
    pub y: String,
    pub z: String,
    pub size: String,
    pub height: String,
    pub quiet_zone: bool,
}

impl Default for QrFeature {
    fn default() -> (f: QrFeature)
        ensures
            f.data@ == "https://example.com"@,
            f.plane@ == "XY"@,
            f.plane_feature is None,
            f.x@ == "0"@,
            f.y@ == "0"@,
            f.z@ == "0"@,
            f.size@ == "20"@,
            f.height@ == "1"@,
            !f.quiet_zone,
    {
        QrFeature {
            data: owned("https://example.com"),
            plane: owned("XY"),
            plane_feature: None,
            x: owned("0"),
            y: owned("0"),
            z: owned("0"),
            size: owned("20"),
            height: owned("1"),
            quiet_zone: false,
        }
    }
}

impl QrFeature {
    pub fn kind(&self) -> (r: &'static str)
        ensures
            r@ == "qr"@,
    {
        "qr"
    }

    pub fn name(&self) -> (r: String)
        ensures
            r@ == "QR code ("@ + self.size@ + " mm)"@,
    {
        let mut r = String::new();
        r.append("QR code (");
        r.append(self.size.as_str());
        r.append(" mm)");
        assert(r@ =~= "QR code ("@ + self.size@ + " mm)"@);
        r
    }

    pub fn params(&self) -> (v: Vec<ParamSpec>)
        ensures
            v@.len() == 8 + (if self.plane@ == "Feature"@ { 1int } else { 0int }),
            is_text(v@[0], "data"@, "Content (URL or text)"@, self.data@),
            is_choice(v@[1], "plane"@, "Plane"@, seq!["XY"@, "XZ"@, "YZ"@, "Feature"@, "Face"@], self.plane@),
            is_length(v@[2], "x"@, "Corner X on plane"@, self.x@),
            is_length(v@[3], "y"@, "Corner Y on plane"@, self.y@),
            is_length(v@[4], "z"@, "Offset along normal"@, self.z@),
            is_length(v@[5], "size"@, "Overall size"@, self.size@),
            is_length(v@[6], "height"@, "Emboss height"@, self.height@),
            is_flag(v@[7], "quiet_zone"@, "Include quiet zone in size"@, self.quiet_zone),
            self.plane@ == "Feature"@ ==> is_ref(v@[8], "plane_feature"@, "Plane feature"@, plane_type_list(), match self.plane_feature { Some(i) => i, None => 0usize }),
    {
        let o0 = vec!["XY", "XZ", "YZ", "Feature", "Face"];
        assert(names_of(o0@) =~= seq!["XY"@, "XZ"@, "YZ"@, "Feature"@, "Face"@]);
        let mut v = vec![
            spec("data", "Content (URL or text)", self.data.as_str()),
            ParamSpec::choice("plane", "Plane", o0, self.plane.as_str()),
            ParamSpec::length("x", "Corner X on plane", self.x.as_str()),
            ParamSpec::length("y", "Corner Y on plane", self.y.as_str()),
            ParamSpec::length("z", "Offset along normal", self.z.as_str()),
            ParamSpec::length("size", "Overall size", self.size.as_str()),
            ParamSpec::length("height", "Emboss height", self.height.as_str()),
            ParamSpec::boolean("quiet_zone", "Include quiet zone in size", self.quiet_zone),
        ];
        if str_eq(self.plane.as_str(), "Feature") {
            v.push(ParamSpec::feature_ref("plane_feature", "Plane feature", plane_types(), match self.plane_feature { Some(i) => i, None => 0 }));
        }
        v
    }

    /// Sets parameter `name`; an unknown name, or a value of the wrong
    /// kind, changes nothing and is an error.
    pub fn set_param(&mut self, name: &str, value: ParamValue) -> (r: Result<(), String>)
        ensures
            if name@ == "data"@ {
                match value {
                    ParamValue::Expr(x) => r is Ok && *final(self) == (QrFeature { data: x, ..*old(self) }),
                    _ => unknown_param(r, name@) && *final(self) == *old(self),
                }
            } else if name@ == "plane"@ {
                match value {
                    ParamValue::Choice(x) => r is Ok && *final(self) == (QrFeature { plane: x, ..*old(self) }),
                    _ => unknown_param(r, name@) && *final(self) == *old(self),
                }
            } else if name@ == "plane_feature"@ {
                match value {
                    ParamValue::FeatureRef(x) => r is Ok && *final(self) == (QrFeature { plane_feature: Some(x), ..*old(self) }),
                    _ => unknown_param(r, name@) && *final(self) == *old(self),
                }
            } else if name@ == "x"@ {
                match value {
                    ParamValue::Expr(x) => r is Ok && *final(self) == (QrFeature { x: x, ..*old(self) }),
                    _ => unknown_param(r, name@) && *final(self) == *old(self),
                }
            } else if name@ == "y"@ {
                match value {
                    ParamValue::Expr(x) => r is Ok && *final(self) == (QrFeature { y: x, ..*old(self) }),
                    _ => unknown_param(r, name@) && *final(self) == *old(self),
                }
            } else if name@ == "z"@ {
                match value {
                    ParamValue::Expr(x) => r is Ok && *final(self) == (QrFeature { z: x, ..*old(self) }),
                    _ => unknown_param(r, name@) && *final(self) == *old(self),
                }
            } else if name@ == "size"@ {
                match value {
                    ParamValue::Expr(x) => r is Ok && *final(self) == (QrFeature { size: x, ..*old(self) }),
                    _ => unknown_param(r, name@) && *final(self) == *old(self),
                }
            } else if name@ == "height"@ {
                match value {
                    ParamValue::Expr(x) => r is Ok && *final(self) == (QrFeature { height: x, ..*old(self) }),
                    _ => unknown_param(r, name@) && *final(self) == *old(self),
                }
            } else if name@ == "quiet_zone"@ {
                match value {
                    ParamValue::Bool(x) => r is Ok && *final(self) == (QrFeature { quiet_zone: x, ..*old(self) }),
                    _ => unknown_param(r, name@) && *final(self) == *old(self),
                }
            } else {
                unknown_param(r, name@) && *final(self) == *old(self)
            },
    {
        if str_eq(name, "data") {
            if let ParamValue::Expr(x) = value {
                self.data = x;
                return Ok(());
            }
        } else if str_eq(name, "plane") {
            if let ParamValue::Choice(x) = value {
                self.plane = x;
                return Ok(());
            }
        } else if str_eq(name, "plane_feature") {
            if let ParamValue::FeatureRef(x) = value {
                self.plane_feature = Some(x);
                return Ok(());
            }
        } else if str_eq(name, "x") {
            if let ParamValue::Expr(x) = value {
                self.x = x;
                return Ok(());
            }
        } else if str_eq(name, "y") {
            if let ParamValue::Expr(x) = value {
                self.y = x;
                return Ok(());
            }
        } else if str_eq(name, "z") {
            if let ParamValue::Expr(x) = value {
                self.z = x;
                return Ok(());
            }
        } else if str_eq(name, "size") {
            if let ParamValue::Expr(x) = value {
                self.size = x;
                return Ok(());
            }
        } else if str_eq(name, "height") {
            if let ParamValue::Expr(x) = value {
                self.height = x;
                return Ok(());
            }
        } else if str_eq(name, "quiet_zone") {
            if let ParamValue::Bool(x) = value {
                self.quiet_zone = x;
                return Ok(());
            }
        }
        Err(unknown_parameter(name))
    }

    /// Follows a renumbering of the document's features: each feature
    /// reference moves with its feature; one whose feature is gone is
    /// named as broken and set to the deleted mark `usize::MAX`.
    pub fn remap_refs(&mut self, m: &Renumber) -> (broken: Vec<&'static str>)
        ensures
            *final(self) == (QrFeature { plane_feature: if old(self).plane@ == "Feature"@ { moved_opt(*m, old(self).plane_feature) } else { old(self).plane_feature }, ..*old(self) }),
            broken@.map_values(|s: &'static str| s@) == (if old(self).plane@ == "Feature"@ && renumbered(*m, match old(self).plane_feature { Some(i) => i, None => 0usize }) is None { seq!["plane_feature"@] } else { Seq::empty() }),
    {
        let ghost o = *self;
        let mut broken: Vec<&'static str> = Vec::new();
        if str_eq(self.plane.as_str(), "Feature") {
            let shown = match self.plane_feature { Some(i) => i, None => 0 };
            match renumber(m, shown) {
                Some(n) => if n != shown {
                    self.plane_feature = Some(n);
                },
                None => {
                    broken.push("plane_feature");
                    self.plane_feature = Some(usize::MAX);
                },
            }
        }
        assert(broken@.map_values(|s: &'static str| s@) =~= (if o.plane@ == "Feature"@ && renumbered(*m, match o.plane_feature { Some(i) => i, None => 0usize }) is None { seq!["plane_feature"@] } else { Seq::empty() }));
        broken
    }
}

/// A tiled relief pattern: hex, circle, diamond, square or triangle cells.
///
/// The plane of a picked face, when `plane` is "Face", is kept with the
/// geometry and is not part of this record.
#[derive(Clone, Debug)]
pub struct TextureFeature {
    pub shape: String,
    pub plane: String,
    pub plane_feature: Option<usize>,
    pub x: String,
    pub y: String,
    pub z: String,
    pub width: String,
    pub depth: String,
    pub cell: String,
    pub gap: String,
    pub height: String,
}

impl Default for TextureFeature {
    fn default() -> (f: TextureFeature)
        ensures
            f.shape@ == "hex"@,
            f.plane@ == "XY"@,
            f.plane_feature is None,
            f.x@ == "0"@,
            f.y@ == "0"@,
            f.z@ == "0"@,
            f.width@ == "40"@,
            f.depth@ == "20"@,
            f.cell@ == "3"@,
            f.gap@ == "0.6"@,
            f.height@ == "0.4"@,
    {
        TextureFeature {
            shape: owned("hex"),
            plane: owned("XY"),
            plane_feature: None,
            x: owned("0"),
            y: owned("0"),
            z: owned("0"),
            width: owned("40"),
            depth: owned("20"),
            cell: owned("3"),
            gap: owned("0.6"),
            height: owned("0.4"),
        }
    }
}

impl TextureFeature {
    pub fn kind(&self) -> (r: &'static str)
        ensures
            r@ == "texture"@,
    {
        "texture"
    }

    pub fn name(&self) -> (r: String)
        ensures
            r@ == "Texture ("@ + self.shape@ + " "@ + self.cell@ + " mm)"@,
    {
        let mut r = String::new();
        r.append("Texture (");
        r.append(self.shape.as_str());
        r.append(" ");
        r.append(self.cell.as_str());
        r.append(" mm)");
        assert(r@ =~= "Texture ("@ + self.shape@ + " "@ + self.cell@ + " mm)"@);
        r
    }

    pub fn params(&self) -> (v: Vec<ParamSpec>)
        ensures
            v@.len() == 10 + (if self.plane@ == "Feature"@ { 1int } else { 0int }),
            is_choice(v@[0], "shape"@, "Shape"@, seq!["hex"@, "circle"@, "diamond"@, "square"@, "triangle"@], self.shape@),
            is_choice(v@[1], "plane"@, "Plane"@, seq!["XY"@, "XZ"@, "YZ"@, "Feature"@, "Face"@], self.plane@),
            is_length(v@[2], "x"@, "Area corner X"@, self.x@),
            is_length(v@[3], "y"@, "Area corner Y"@, self.y@),
            is_length(v@[4], "z"@, "Offset along normal"@, self.z@),
            is_length(v@[5], "width"@, "Area width"@, self.width@),
            is_length(v@[6], "depth"@, "Area depth"@, self.depth@),
            is_length(v@[7], "cell"@, "Cell size"@, self.cell@),
            is_length(v@[8], "gap"@, "Gap between cells"@, self.gap@),
            is_length(v@[9], "height"@, "Relief height"@, self.height@),
            self.plane@ == "Feature"@ ==> is_ref(v@[10], "plane_feature"@, "Plane feature"@, plane_type_list(), match self.plane_feature { Some(i) => i, None => 0usize }),
    {
        let o0 = vec!["hex", "circle", "diamond", "square", "triangle"];
        assert(names_of(o0@) =~= seq!["hex"@, "circle"@, "diamond"@, "square"@, "triangle"@]);
        let o1 = vec!["XY", "XZ", "YZ", "Feature", "Face"];
        assert(names_of(o1@) =~= seq!["XY"@, "XZ"@, "YZ"@, "Feature"@, "Face"@]);
        let mut v = vec![
            ParamSpec::choice("shape", "Shape", o0, self.shape.as_str()),
            ParamSpec::choice("plane", "Plane", o1, self.plane.as_str()),
            ParamSpec::length("x", "Area corner X", self.x.as_str()),
            ParamSpec::length("y", "Area corner Y", self.y.as_str()),
            ParamSpec::length("z", "Offset along normal", self.z.as_str()),
            ParamSpec::length("width", "Area width", self.width.as_str()),
            ParamSpec::length("depth", "Area depth", self.depth.as_str()),
            ParamSpec::length("cell", "Cell size", self.cell.as_str()),
            ParamSpec::length("gap", "Gap between cells", self.gap.as_str()),
            ParamSpec::length("height", "Relief height", self.height.as_str()),
        ];
        if str_eq(self.plane.as_str(), "Feature") {
            v.push(ParamSpec::feature_ref("plane_feature", "Plane feature", plane_types(), match self.plane_feature { Some(i) => i, None => 0 }));
        }
        v
    }

    /// Sets parameter `name`; an unknown name, or a value of the wrong
    /// kind, changes nothing and is an error.
    pub fn set_param(&mut self, name: &str, value: ParamValue) -> (r: Result<(), String>)
        ensures
            if name@ == "shape"@ {
                match value {
                    ParamValue::Choice(x) => r is Ok && *final(self) == (TextureFeature { shape: x, ..*old(self) }),
                    _ => unknown_param(r, name@) && *final(self) == *old(self),
                }
            } else if name@ == "plane"@ {
                match value {
                    ParamValue::Choice(x) => r is Ok && *final(self) == (TextureFeature { plane: x, ..*old(self) }),
                    _ => unknown_param(r, name@) && *final(self) == *old(self),
                }
            } else if name@ == "plane_feature"@ {
                match value {
                    ParamValue::FeatureRef(x) => r is Ok && *final(self) == (TextureFeature { plane_feature: Some(x), ..*old(self) }),
                    _ => unknown_param(r, name@) && *final(self) == *old(self),
                }
            } else if name@ == "x"@ {
                match value {
                    ParamValue::Expr(x) => r is Ok && *final(self) == (TextureFeature { x: x, ..*old(self) }),
                    _ => unknown_param(r, name@) && *final(self) == *old(self),
                }
            } else if name@ == "y"@ {
                match value {
                    ParamValue::Expr(x) => r is Ok && *final(self) == (TextureFeature { y: x, ..*old(self) }),
                    _ => unknown_param(r, name@) && *final(self) == *old(self),
                }
            } else if name@ == "z"@ {
                match value {
                    ParamValue::Expr(x) => r is Ok && *final(self) == (TextureFeature { z: x, ..*old(self) }),
                    _ => unknown_param(r, name@) && *final(self) == *old(self),
                }
            } else if name@ == "width"@ {
                match value {
                    ParamValue::Expr(x) => r is Ok && *final(self) == (TextureFeature { width: x, ..*old(self) }),
                    _ => unknown_param(r, name@) && *final(self) == *old(self),
                }
            } else if name@ == "depth"@ {
                match value {
                    ParamValue::Expr(x) => r is Ok && *final(self) == (TextureFeature { depth: x, ..*old(self) }),
                    _ => unknown_param(r, name@) && *final(self) == *old(self),
                }
            } else if name@ == "cell"@ {
                match value {
                    ParamValue::Expr(x) => r is Ok && *final(self) == (TextureFeature { cell: x, ..*old(self) }),
                    _ => unknown_param(r, name@) && *final(self) == *old(self),
                }
            } else if name@ == "gap"@ {
                match value {
                    ParamValue::Expr(x) => r is Ok && *final(self) == (TextureFeature { gap: x, ..*old(self) }),
                    _ => unknown_param(r, name@) && *final(self) == *old(self),
                }
            } else if name@ == "height"@ {
                match value {
                    ParamValue::Expr(x) => r is Ok && *final(self) == (TextureFeature { height: x, ..*old(self) }),
                    _ => unknown_param(r, name@) && *final(self) == *old(self),
                }
            } else {
                unknown_param(r, name@) && *final(self) == *old(self)
            },
    {
        if str_eq(name, "shape") {
            if let ParamValue::Choice(x) = value {
                self.shape = x;
                return Ok(());
            }
        } else if str_eq(name, "plane") {
            if let ParamValue::Choice(x) = value {
                self.plane = x;
                return Ok(());
            }
        } else if str_eq(name, "plane_feature") {
            if let ParamValue::FeatureRef(x) = value {
                self.plane_feature = Some(x);
                return Ok(());
            }
        } else if str_eq(name, "x") {
            if let ParamValue::Expr(x) = value {
                self.x = x;
                return Ok(());
            }
        } else if str_eq(name, "y") {
            if let ParamValue::Expr(x) = value {
                self.y = x;
                return Ok(());
            }
        } else if str_eq(name, "z") {
            if let ParamValue::Expr(x) = value {
                self.z = x;
                return Ok(());
            }
        } else if str_eq(name, "width") {
            if let ParamValue::Expr(x) = value {
                self.width = x;
                return Ok(());
            }
        } else if str_eq(name, "depth") {
            if let ParamValue::Expr(x) = value {
                self.depth = x;
                return Ok(());
            }
        } else if str_eq(name, "cell") {
            if let ParamValue::Expr(x) = value {
                self.cell = x;
                return Ok(());
            }
        } else if str_eq(name, "gap") {
            if let ParamValue::Expr(x) = value {
                self.gap = x;
                return Ok(());
            }
        } else if str_eq(name, "height") {
            if let ParamValue::Expr(x) = value {
                self.height = x;
                return Ok(());
            }
        }
        Err(unknown_parameter(name))
    }

    /// Follows a renumbering of the document's features: each feature
    /// reference moves with its feature; one whose feature is gone is
    /// named as broken and set to the deleted mark `usize::MAX`.
    pub fn remap_refs(&mut self, m: &Renumber) -> (broken: Vec<&'static str>)
        ensures
            *final(self) == (TextureFeature { plane_feature: if old(self).plane@ == "Feature"@ { moved_opt(*m, old(self).plane_feature) } else { old(self).plane_feature }, ..*old(self) }),
            broken@.map_values(|s: &'static str| s@) == (if old(self).plane@ == "Feature"@ && renumbered(*m, match old(self).plane_feature { Some(i) => i, None => 0usize }) is None { seq!["plane_feature"@] } else { Seq::empty() }),
    {
        let ghost o = *self;
        let mut broken: Vec<&'static str> = Vec::new();
        if str_eq(self.plane.as_str(), "Feature") {
            let shown = match self.plane_feature { Some(i) => i, None => 0 };
            match renumber(m, shown) {
                Some(n) => if n != shown {
                    self.plane_feature = Some(n);
                },
                None => {
                    broken.push("plane_feature");
                    self.plane_feature = Some(usize::MAX);
                },
            }
        }
        assert(broken@.map_values(|s: &'static str| s@) =~= (if o.plane@ == "Feature"@ && renumbered(*m, match o.plane_feature { Some(i) => i, None => 0usize }) is None { seq!["plane_feature"@] } else { Seq::empty() }));
        broken
    }
}

} // verus!
