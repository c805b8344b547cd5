//! Generic parameter description, so an editor can change any feature
//! without knowing its concrete type.

use vstd::prelude::*;
use crate::text::owned;

verus! {

/// The value of one parameter.
#[derive(Clone, Debug, PartialEq)]
pub enum ParamValue {
    /// An expression string, evaluated against the document expression table.
    Expr(String),
    Bool(bool),
    /// Index of another feature in the history.
    FeatureRef(usize),
    /// A choice from a fixed list, stored by label.
    Choice(String),
    Text(String),
}

/// What kind of value a parameter holds, for the editor.
#[derive(Clone, Debug, PartialEq)]
pub enum ParamKind {
    Length,
    Angle,
    Bool,
    /// Reference to a feature whose type id is in the list.
    FeatureRef { accepts: Vec<&'static str> },
    Choice { options: Vec<&'static str> },
    Text,
    /// A font: `builtin:<name>`, a file path, or empty for the default.
    Font,
    /// Which regions of a sketch to use, stored as text; `sketch` names the
    /// parameter that holds the sketch.
    Regions { sketch: &'static str },
}

/// One editable parameter.
#[derive(Clone, Debug, PartialEq)]
pub struct ParamSpec {
    pub name: &'static str,
    pub label: &'static str,
    pub kind: ParamKind,
    pub value: ParamValue,
}

impl ParamSpec {
    pub fn length(name: &'static str, label: &'static str, expr: &str) -> (p: ParamSpec)
        ensures
            p.name == name,
            p.label == label,
            p.kind == ParamKind::Length,
            p.value matches ParamValue::Expr(e) && e@ == expr@,
    {
        ParamSpec { name, label, kind: ParamKind::Length, value: ParamValue::Expr(owned(expr)) }
    }

    pub fn angle(name: &'static str, label: &'static str, expr: &str) -> (p: ParamSpec)
        ensures
            p.name == name,
            p.label == label,
            p.kind == ParamKind::Angle,
            p.value matches ParamValue::Expr(e) && e@ == expr@,
    {
        ParamSpec { name, label, kind: ParamKind::Angle, value: ParamValue::Expr(owned(expr)) }
    }

    pub fn boolean(name: &'static str, label: &'static str, v: bool) -> (p: ParamSpec)
        ensures
            p.name == name,
            p.label == label,
            p.kind == ParamKind::Bool,
            p.value == ParamValue::Bool(v),
    {
        ParamSpec { name, label, kind: ParamKind::Bool, value: ParamValue::Bool(v) }
    }

    pub fn feature_ref(name: &'static str, label: &'static str, accepts: Vec<&'static str>, idx: usize) -> (p:
        ParamSpec)
        ensures
            p.name == name,
            p.label == label,
            p.kind == (ParamKind::FeatureRef { accepts }),
            p.value == ParamValue::FeatureRef(idx),
    {
        ParamSpec { name, label, kind: ParamKind::FeatureRef { accepts }, value: ParamValue::FeatureRef(idx) }
    }

    pub fn regions(name: &'static str, sketch: &'static str, spec: &str) -> (p: ParamSpec)
        ensures
            p.name == name,
            p.label@ == "Regions"@,
            p.kind == (ParamKind::Regions { sketch }),
            p.value matches ParamValue::Expr(e) && e@ == spec@,
    {
        ParamSpec {
            name,
            label: "Regions",
            kind: ParamKind::Regions { sketch },
            value: ParamValue::Expr(owned(spec)),
        }
    }

    pub fn choice(name: &'static str, label: &'static str, options: Vec<&'static str>, v: &str) -> (p: ParamSpec)
        ensures
            p.name == name,
            p.label == label,
            p.kind == (ParamKind::Choice { options }),
            p.value matches ParamValue::Choice(c) && c@ == v@,
    {
        ParamSpec { name, label, kind: ParamKind::Choice { options }, value: ParamValue::Choice(owned(v)) }
    }
}

/// A text parameter: shown as free text, stored as an expression string.
pub fn spec(name: &'static str, label: &'static str, v: &str) -> (p: ParamSpec)
    ensures
        p.name == name,
        p.label == label,
        p.kind == ParamKind::Text,
        p.value matches ParamValue::Expr(e) && e@ == v@,
{
    ParamSpec { name, label, kind: ParamKind::Text, value: ParamValue::Expr(owned(v)) }
}

/// The texts of a list of names.
pub open spec fn names_of(v: Seq<&'static str>) -> Seq<Seq<char>> {
    v.map_values(|s: &'static str| s@)
}

pub open spec fn named(p: ParamSpec, name: Seq<char>, label: Seq<char>) -> bool {
    p.name@ == name && p.label@ == label
}

/// `p` is the length parameter `name` with label `label` and expression `v`.
pub open spec fn is_length(p: ParamSpec, name: Seq<char>, label: Seq<char>, v: Seq<char>) -> bool {
    &&& named(p, name, label)
    &&& p.kind == ParamKind::Length
    &&& p.value matches ParamValue::Expr(e) && e@ == v
}

pub open spec fn is_angle(p: ParamSpec, name: Seq<char>, label: Seq<char>, v: Seq<char>) -> bool {
    &&& named(p, name, label)
    &&& p.kind == ParamKind::Angle
    &&& p.value matches ParamValue::Expr(e) && e@ == v
}

pub open spec fn is_text(p: ParamSpec, name: Seq<char>, label: Seq<char>, v: Seq<char>) -> bool {
    &&& named(p, name, label)
    &&& p.kind == ParamKind::Text
    &&& p.value matches ParamValue::Expr(e) && e@ == v
}

pub open spec fn is_font(p: ParamSpec, name: Seq<char>, label: Seq<char>, v: Seq<char>) -> bool {
    &&& named(p, name, label)
    &&& p.kind == ParamKind::Font
    &&& p.value matches ParamValue::Expr(e) && e@ == v
}

pub open spec fn is_flag(p: ParamSpec, name: Seq<char>, label: Seq<char>, b: bool) -> bool {
    named(p, name, label) && p.kind == ParamKind::Bool && p.value == ParamValue::Bool(b)
}

pub open spec fn is_ref(p: ParamSpec, name: Seq<char>, label: Seq<char>, accepts: Seq<Seq<char>>, idx: usize) -> bool {
    &&& named(p, name, label)
    &&& p.kind matches ParamKind::FeatureRef { accepts: a } && names_of(a@) == accepts
    &&& p.value == ParamValue::FeatureRef(idx)
}

pub open spec fn is_choice(
    p: ParamSpec,
    name: Seq<char>,
    label: Seq<char>,
    options: Seq<Seq<char>>,
    v: Seq<char>,
) -> bool {
    &&& named(p, name, label)
    &&& p.kind matches ParamKind::Choice { options: o } && names_of(o@) == options
    &&& p.value matches ParamValue::Choice(c) && c@ == v
}

pub open spec fn is_regions(p: ParamSpec, name: Seq<char>, sketch: Seq<char>, v: Seq<char>) -> bool {
    &&& named(p, name, "Regions"@)
    &&& p.kind matches ParamKind::Regions { sketch: k } && k@ == sketch
    &&& p.value matches ParamValue::Expr(e) && e@ == v
}

/// The answer to a parameter name that a feature does not have.
pub open spec fn unknown_param(r: Result<(), String>, name: Seq<char>) -> bool {
    r matches Err(m) && m@ == "unknown parameter "@ + name
}

pub fn unknown_parameter(name: &str) -> (r: String)
    ensures
        r@ == "unknown parameter "@ + name@,
{
    let mut r = owned("unknown parameter ");
    r.append(name);
    r
}

} // verus!
