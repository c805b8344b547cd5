//! The options of the headless commands, read from the words after the
//! command name. Folders and files are kept as the text given; the caller
//! turns them into paths.

use vstd::prelude::*;
use crate::region_select::{next_sep, pieces_from, Split};
use crate::text::{ascii_lower, chars_of, float_error, float_ok, float_text, lower, owned, push_char, str_eq, string_of, trim, trim_bounds};
use crate::xml::find_from;

verus! {

/// The words of a command line, as text.
pub open spec fn words(args: Seq<String>) -> Seq<Seq<char>> {
    args.map_values(|s: String| s@)
}

/// The answer to a flag without a value after it.
pub open spec fn needs_value(flag: Seq<char>) -> Seq<char> {
    flag + " needs a value"@
}

/// The answer to a word that is no option.
pub open spec fn unknown_option(flag: Seq<char>) -> Seq<char> {
    "unknown option "@ + flag
}

fn needs_value_text(flag: &str) -> (r: String)
    ensures
        r@ == needs_value(flag@),
{
    let mut r = owned(flag);
    r.append(" needs a value");
    r
}

fn unknown_option_text(flag: &str) -> (r: String)
    ensures
        r@ == unknown_option(flag@),
{
    let mut r = owned("unknown option ");
    r.append(flag);
    r
}

// ---------------------------------------------------------------- card

/// Parsed `card` options.
#[derive(Debug)]
pub struct CardArgs {
    pub name: String,
    pub url: String,
    /// Output folder.
    pub out: String,
    pub font: Option<String>,
}

/// What the `card` options read so far hold: name, url, folder, font.
pub type CardState = (Option<Seq<char>>, Option<Seq<char>>, Seq<char>, Option<Seq<char>>);

/// The `card` options from word `i` on, flags and values in pairs.
pub open spec fn card_from(w: Seq<Seq<char>>, i: int, st: CardState) -> Result<CardState, Seq<char>>
    decreases w.len() - i,
{
    if i < 0 || i >= w.len() {
        if st.0 is None {
            Err("missing --name"@)
        } else if st.1 is None {
            Err("missing --url"@)
        } else {
            Ok(st)
        }
    } else {
        let f = w[i];
        if f == "--name"@ || f == "--url"@ || f == "--out"@ || f == "--font"@ {
            if i + 1 >= w.len() {
                Err(needs_value(f))
            } else {
                let v = w[i + 1];
                let next = if f == "--name"@ {
                    (Some(v), st.1, st.2, st.3)
                } else if f == "--url"@ {
                    (st.0, Some(v), st.2, st.3)
                } else if f == "--out"@ {
                    (st.0, st.1, v, st.3)
                } else {
                    (st.0, st.1, st.2, Some(v))
                };
                card_from(w, i + 2, next)
            }
        } else {
            Err(unknown_option(f))
        }
    }
}

pub open spec fn opt_view(o: Option<String>) -> Option<Seq<char>> {
    match o {
        Some(s) => Some(s@),
        None => None,
    }
}

pub fn parse_card(args: &[String]) -> (r: Result<CardArgs, String>)
    ensures
        match (r, card_from(words(args@), 0, (None, None, "."@, None))) {
            (Ok(a), Ok(st)) => a.name@ == st.0->0 && a.url@ == st.1->0 && a.out@ == st.2 && opt_view(a.font)
                == st.3,
            (Err(e), Err(m)) => e@ == m,
            _ => false,
        },
{
    let ghost w = words(args@);
    let mut name: Option<String> = None;
    let mut url: Option<String> = None;
    let mut out = owned(".");
    let mut font: Option<String> = None;
    let mut i: usize = 0;
    while i < args.len()
        invariant
            w == words(args@),
            card_from(w, 0, (None, None, "."@, None)) == card_from(w, i as int, (opt_view(name), opt_view(url), out@, opt_view(font))),
        decreases args@.len() - i,
    {
        let flag = args[i].as_str();
        assert(w[i as int] == flag@);
        let known = str_eq(flag, "--name") || str_eq(flag, "--url") || str_eq(flag, "--out") || str_eq(flag, "--font");
        if !known {
            return Err(unknown_option_text(flag));
        }
        if i + 1 >= args.len() {
            return Err(needs_value_text(flag));
        }
        let value = args[i + 1].clone();
        assert(w[i + 1] == value@);
        if str_eq(flag, "--name") {
            name = Some(value);
        } else if str_eq(flag, "--url") {
            url = Some(value);
        } else if str_eq(flag, "--out") {
            out = value;
        } else {
            font = Some(value);
        }
        i = i + 2;
    }
    match (name, url) {
        (None, _) => Err(owned("missing --name")),
        (Some(_), None) => Err(owned("missing --url")),
        (Some(n), Some(u)) => Ok(CardArgs { name: n, url: u, out, font }),
    }
}

// ---------------------------------------------------------------- kettle

/// Parsed `kettle` options.
#[derive(Debug)]
pub struct KettleArgs {
    /// "plain", "gated" or "mold".
    pub variant: String,
    pub out: String,
}

/// The `kettle` options from word `i` on: variant and folder.
pub open spec fn kettle_from(w: Seq<Seq<char>>, i: int, st: (Seq<char>, Seq<char>)) -> Result<
    (Seq<char>, Seq<char>),
    Seq<char>,
>
    decreases w.len() - i,
{
    if i < 0 || i >= w.len() {
        if st.0 == "plain"@ || st.0 == "gated"@ || st.0 == "mold"@ {
            Ok(st)
        } else {
            Err("unknown variant "@ + st.0 + "; use plain, gated, or mold"@)
        }
    } else if w[i] == "--variant"@ {
        if i + 1 >= w.len() {
            Err("--variant needs a value"@)
        } else {
            kettle_from(w, i + 2, (w[i + 1], st.1))
        }
    } else if w[i] == "--out"@ {
        if i + 1 >= w.len() {
            Err("--out needs a value"@)
        } else {
            kettle_from(w, i + 2, (st.0, w[i + 1]))
        }
    } else {
        Err(unknown_option(w[i]))
    }
}

/// The `aircraft` options: nothing, or `--out DIR`; the folder to write
/// to, "." when none is given. Words after the folder are not read.
pub fn parse_aircraft(args: &[String]) -> (r: Result<String, String>)
    ensures
        match r {
            Ok(out) => if args@.len() == 0 {
                out@ == "."@
            } else {
                args@[0]@ == "--out"@ && args@.len() >= 2 && out@ == args@[1]@
            },
            Err(e) => args@.len() > 0 && if args@[0]@ == "--out"@ {
                args@.len() < 2 && e@ == needs_value("--out"@)
            } else {
                e@ == unknown_option(args@[0]@)
            },
        },
{
    if args.len() == 0 {
        return Ok(owned("."));
    }
    if str_eq(args[0].as_str(), "--out") {
        if args.len() < 2 {
            return Err(needs_value_text("--out"));
        }
        return Ok(args[1].clone());
    }
    Err(unknown_option_text(args[0].as_str()))
}

pub fn parse_kettle(args: &[String]) -> (r: Result<KettleArgs, String>)
    ensures
        match (r, kettle_from(words(args@), 0, ("plain"@, "."@))) {
            (Ok(a), Ok(st)) => a.variant@ == st.0 && a.out@ == st.1,
            (Err(e), Err(m)) => e@ == m,
            _ => false,
        },
{
    let ghost w = words(args@);
    let mut variant = owned("plain");
    let mut out = owned(".");
    let mut i: usize = 0;
    while i < args.len()
        invariant
            w == words(args@),
            kettle_from(w, 0, ("plain"@, "."@)) == kettle_from(w, i as int, (variant@, out@)),
        decreases args@.len() - i,
    {
        let flag = args[i].as_str();
        assert(w[i as int] == flag@);
        if str_eq(flag, "--variant") {
            if i + 1 >= args.len() {
                return Err(owned("--variant needs a value"));
            }
            variant = args[i + 1].clone();
            assert(w[i + 1] == variant@);
        } else if str_eq(flag, "--out") {
            if i + 1 >= args.len() {
                return Err(owned("--out needs a value"));
            }
            out = args[i + 1].clone();
            assert(w[i + 1] == out@);
        } else {
            return Err(unknown_option_text(flag));
        }
        i = i + 2;
    }
    let v = variant.as_str();
    if !(str_eq(v, "plain") || str_eq(v, "gated") || str_eq(v, "mold")) {
        let mut m = owned("unknown variant ");
        m.append(v);
        m.append("; use plain, gated, or mold");
        return Err(m);
    }
    Ok(KettleArgs { variant, out })
}

// ---------------------------------------------------------------- lattice

/// Parsed `lattice` options; numbers are kept as the text given.
#[derive(Debug)]
pub struct LatticeArgs {
    /// The closed mesh to fill.
    pub stl: String,
    pub kind: String,
    pub cell: String,
    pub wall: String,
    pub wall_end: String,
    pub grade: String,
    pub conform: String,
    pub skin: String,
    pub res: String,
    pub out: String,
}

/// The flags of `lattice`, in the order of the fields they set.
pub open spec fn lattice_flags() -> Seq<Seq<char>> {
    seq![
        "--stl"@,
        "--kind"@,
        "--cell"@,
        "--wall"@,
        "--wall-end"@,
        "--grade"@,
        "--conform"@,
        "--skin"@,
        "--res"@,
        "--out"@,
    ]
}

/// The default values of the `lattice` fields.
pub open spec fn lattice_defaults() -> Seq<Seq<char>> {
    seq![""@, "gyroid"@, "8"@, "1.2"@, "0"@, "none"@, "none"@, "1.2"@, "0.4"@, "."@]
}

/// The first flag of `lattice` that `f` is, if any.
pub open spec fn flag_index(f: Seq<char>) -> Option<int> {
    if exists|k: int| 0 <= k < 10 && lattice_flags()[k] == f {
        Some(choose|k: int| 0 <= k < 10 && lattice_flags()[k] == f && forall|q: int| 0 <= q < k ==> lattice_flags()[q] != f)
    } else {
        None
    }
}

/// The `lattice` options from word `i` on; `st` holds the ten fields.
pub open spec fn lattice_from(w: Seq<Seq<char>>, i: int, st: Seq<Seq<char>>) -> Result<Seq<Seq<char>>, Seq<char>>
    decreases w.len() - i,
{
    if i < 0 || i >= w.len() {
        if st[0].len() == 0 {
            Err("--stl is required"@)
        } else {
            Ok(st)
        }
    } else {
        match flag_index(w[i]) {
            None => Err(unknown_option(w[i])),
            Some(k) => if i + 1 >= w.len() {
                Err(needs_value(w[i]))
            } else {
                lattice_from(w, i + 2, st.update(k, w[i + 1]))
            },
        }
    }
}

pub open spec fn lattice_fields(a: LatticeArgs) -> Seq<Seq<char>> {
    seq![a.stl@, a.kind@, a.cell@, a.wall@, a.wall_end@, a.grade@, a.conform@, a.skin@, a.res@, a.out@]
}

/// Which field of `lattice` a flag sets.
fn lattice_flag(f: &str) -> (r: Option<usize>)
    ensures
        match r {
            Some(k) => flag_index(f@) == Some(k as int),
            None => flag_index(f@) is None,
        },
{
    let flags = vec!["--stl", "--kind", "--cell", "--wall", "--wall-end", "--grade", "--conform", "--skin", "--res", "--out"];
    assert(flags@.map_values(|s: &'static str| s@) =~= lattice_flags());
    let mut k: usize = 0;
    while k < 10
        invariant
            k <= 10,
            flags@.len() == 10,
            flags@.map_values(|s: &'static str| s@) == lattice_flags(),
            forall|q: int| 0 <= q < k ==> lattice_flags()[q] != f@,
        decreases 10 - k,
    {
        assert(lattice_flags()[k as int] == flags@[k as int]@);
        if str_eq(f, flags[k]) {
            assert(0 <= k < 10 && lattice_flags()[k as int] == f@);
            let ghost c = choose|c: int| 0 <= c < 10 && lattice_flags()[c] == f@ && forall|q: int| 0 <= q < c ==> lattice_flags()[q] != f@;
            assert(c == k as int) by {
                if c < k {
                } else if c > k {
                }
            }
            return Some(k);
        }
        k = k + 1;
    }
    None
}

pub fn parse_lattice(args: &[String]) -> (r: Result<LatticeArgs, String>)
    ensures
        match (r, lattice_from(words(args@), 0, lattice_defaults())) {
            (Ok(a), Ok(st)) => lattice_fields(a) == st,
            (Err(e), Err(m)) => e@ == m,
            _ => false,
        },
{
    let ghost w = words(args@);
    let mut a = LatticeArgs {
        stl: owned(""),
        kind: owned("gyroid"),
        cell: owned("8"),
        wall: owned("1.2"),
        wall_end: owned("0"),
        grade: owned("none"),
        conform: owned("none"),
        skin: owned("1.2"),
        res: owned("0.4"),
        out: owned("."),
    };
    assert(lattice_fields(a) =~= lattice_defaults());
    let mut i: usize = 0;
    while i < args.len()
        invariant
            w == words(args@),
            lattice_from(w, 0, lattice_defaults()) == lattice_from(w, i as int, lattice_fields(a)),
        decreases args@.len() - i,
    {
        let flag = args[i].as_str();
        assert(w[i as int] == flag@);
        let k = match lattice_flag(flag) {
            None => return Err(unknown_option_text(flag)),
            Some(k) => k,
        };
        if i + 1 >= args.len() {
            return Err(needs_value_text(flag));
        }
        let v = args[i + 1].clone();
        assert(w[i + 1] == v@);
        let ghost before = lattice_fields(a);
        if k == 0 {
            a.stl = v;
        } else if k == 1 {
            a.kind = v;
        } else if k == 2 {
            a.cell = v;
        } else if k == 3 {
            a.wall = v;
        } else if k == 4 {
            a.wall_end = v;
        } else if k == 5 {
            a.grade = v;
        } else if k == 6 {
            a.conform = v;
        } else if k == 7 {
            a.skin = v;
        } else if k == 8 {
            a.res = v;
        } else {
            a.out = v;
        }
        assert(lattice_fields(a) =~= before.update(k as int, w[i + 1]));
        i = i + 2;
    }
    if a.stl.as_str().is_empty() {
        return Err(owned("--stl is required"));
    }
    Ok(a)
}

// ---------------------------------------------------------------- run

/// Parsed `run` options. Numbers are kept as the text given, each checked
/// to read as a floating point number.
#[derive(Debug)]
pub struct RunArgs {
    /// The document to open.
    pub doc: String,
    /// `--set name=value` pairs, trimmed, in order.
    pub sets: Vec<(String, String)>,
    pub inputs: Option<String>,
    pub outputs: Option<String>,
    /// Export formats, in lower case.
    pub formats: Vec<String>,
    pub out: String,
    pub openfoam: bool,
    pub speed: String,
    pub alpha: String,
    pub sref: Option<String>,
    pub cref: Option<String>,
}

/// What the `run` options read so far hold.
pub struct RunView {
    pub doc: Seq<char>,
    pub sets: Seq<(Seq<char>, Seq<char>)>,
    pub inputs: Option<Seq<char>>,
    pub outputs: Option<Seq<char>>,
    pub formats: Seq<Seq<char>>,
    pub out: Seq<char>,
    pub openfoam: bool,
    pub speed: Seq<char>,
    pub alpha: Seq<char>,
    pub sref: Option<Seq<char>>,
    pub cref: Option<Seq<char>>,
}

pub open spec fn run_view(a: RunArgs) -> RunView {
    RunView {
        doc: a.doc@,
        sets: a.sets@.map_values(|p: (String, String)| (p.0@, p.1@)),
        inputs: opt_view(a.inputs),
        outputs: opt_view(a.outputs),
        formats: words(a.formats@),
        out: a.out@,
        openfoam: a.openfoam,
        speed: a.speed@,
        alpha: a.alpha@,
        sref: opt_view(a.sref),
        cref: opt_view(a.cref),
    }
}

/// The `run` options before any word is read.
pub open spec fn run_defaults() -> RunView {
    RunView {
        doc: Seq::empty(),
        sets: Seq::empty(),
        inputs: None,
        outputs: None,
        formats: seq!["3mf-group"@, "stl-parts"@],
        out: "."@,
        openfoam: false,
        speed: "20"@,
        alpha: "4"@,
        sref: None,
        cref: None,
    }
}

/// `s` with ASCII letters made small, as `to_ascii_lowercase`.
pub open spec fn lower_text(s: Seq<char>) -> Seq<char> {
    s.map_values(|c: char| ascii_lower(c))
}

/// The format names of comma separated pieces: trimmed, in lower case,
/// empty ones left out.
pub open spec fn format_names(ps: Seq<Seq<char>>) -> Seq<Seq<char>>
    decreases ps.len(),
{
    if ps.len() == 0 {
        Seq::empty()
    } else {
        let f = lower_text(trim(ps[0]));
        if f.len() == 0 {
            format_names(ps.drop_first())
        } else {
            seq![f] + format_names(ps.drop_first())
        }
    }
}

/// The answer to a number option whose value is no number.
pub open spec fn bad_number(flag: Seq<char>, v: Seq<char>) -> Seq<char> {
    flag + ": "@ + float_error(v)
}

/// The `run` options from word `i` on.
pub open spec fn run_from(w: Seq<Seq<char>>, i: int, st: RunView) -> Result<RunView, Seq<char>>
    decreases w.len() - i,
{
    if i < 0 || i >= w.len() {
        if st.doc.len() == 0 {
            Err("give the .anvil document to run"@)
        } else {
            Ok(st)
        }
    } else {
        let f = w[i];
        if f == "--openfoam"@ {
            run_from(w, i + 1, RunView { openfoam: true, ..st })
        } else if f == "--speed"@ || f == "--alpha"@ || f == "--sref"@ || f == "--cref"@ || f == "--set"@ || f
            == "--inputs"@ || f == "--outputs"@ || f == "--formats"@ || f == "--out"@ {
            if i + 1 >= w.len() {
                Err(needs_value(f))
            } else {
                let v = w[i + 1];
                if f == "--speed"@ || f == "--alpha"@ || f == "--sref"@ || f == "--cref"@ {
                    if !float_text(v) {
                        Err(bad_number(f, v))
                    } else if f == "--speed"@ {
                        run_from(w, i + 2, RunView { speed: v, ..st })
                    } else if f == "--alpha"@ {
                        run_from(w, i + 2, RunView { alpha: v, ..st })
                    } else if f == "--sref"@ {
                        run_from(w, i + 2, RunView { sref: Some(v), ..st })
                    } else {
                        run_from(w, i + 2, RunView { cref: Some(v), ..st })
                    }
                } else if f == "--set"@ {
                    match find_from(v, 0, '=') {
                        None => Err("--set wants name=value, got "@ + v),
                        Some(k) => run_from(
                            w,
                            i + 2,
                            RunView { sets: st.sets.push((trim(v.take(k)), trim(v.skip(k + 1)))), ..st },
                        ),
                    }
                } else if f == "--inputs"@ {
                    run_from(w, i + 2, RunView { inputs: Some(v), ..st })
                } else if f == "--outputs"@ {
                    run_from(w, i + 2, RunView { outputs: Some(v), ..st })
                } else if f == "--formats"@ {
                    run_from(w, i + 2, RunView { formats: format_names(pieces_from(v, 0, Split::Comma)), ..st })
                } else {
                    run_from(w, i + 2, RunView { out: v, ..st })
                }
            }
        } else if f.len() >= 2 && f[0] == '-' && f[1] == '-' {
            Err(unknown_option(f))
        } else {
            run_from(w, i + 1, RunView { doc: f, ..st })
        }
    }
}

/// The format names in `v`, a comma separated list.
fn format_list(v: &String) -> (r: Vec<String>)
    ensures
        words(r@) == format_names(pieces_from(v@, 0, Split::Comma)),
{
    let tv = chars_of(v.as_str());
    let ghost t = v@;
    let n = tv.len();
    let mut out: Vec<String> = Vec::new();
    let mut i: usize = 0;
    assert(words(out@) + format_names(pieces_from(t, 0, Split::Comma)) =~= format_names(pieces_from(t, 0, Split::Comma)));
    loop
        invariant
            tv@ == t,
            t == v@,
            n == t.len(),
            i <= n,
            format_names(pieces_from(t, 0, Split::Comma)) == words(out@) + format_names(pieces_from(t, i as int, Split::Comma)),
        decreases n - i,
    {
        let mut k = i;
        while k < n && tv[k] != ','
            invariant
                i <= k <= n == tv@.len(),
                next_sep(tv@, k as int, Split::Comma) == next_sep(tv@, i as int, Split::Comma),
            decreases n - k,
        {
            k = k + 1;
        }
        let (a, b) = trim_bounds(&tv, i, k);
        let ghost piece = t.subrange(i as int, k as int);
        let ghost rest = if k >= n {
            Seq::<Seq<char>>::empty()
        } else {
            pieces_from(t, k + 1, Split::Comma)
        };
        proof {
            assert(pieces_from(t, i as int, Split::Comma) =~= seq![piece] + rest);
            assert((seq![piece] + rest)[0] == piece);
            assert((seq![piece] + rest).drop_first() =~= rest);
        }
        let ghost before = words(out@);
        if a < b {
            let mut f = String::new();
            let mut j = a;
            while j < b
                invariant
                    a <= j <= b <= tv@.len(),
                    f@ == lower_text(tv@.subrange(a as int, j as int)),
                decreases b - j,
            {
                push_char(&mut f, lower(tv[j]));
                assert(f@ =~= lower_text(tv@.subrange(a as int, j + 1)));
                j = j + 1;
            }
            out.push(f);
            assert(words(out@) =~= before.push(lower_text(trim(piece))));
            assert(before + (seq![lower_text(trim(piece))] + format_names(rest)) =~= words(out@) + format_names(rest));
        } else {
            assert(lower_text(trim(piece)).len() == 0);
        }
        assert(format_names(pieces_from(t, 0, Split::Comma)) == words(out@) + format_names(rest));
        if k >= n {
            assert(words(out@) + Seq::<Seq<char>>::empty() =~= words(out@));
            return out;
        }
        i = k + 1;
    }
}

/// The flags of `run` that take a value.
fn takes_value(f: &str) -> (r: bool)
    ensures
        r == (f@ == "--speed"@ || f@ == "--alpha"@ || f@ == "--sref"@ || f@ == "--cref"@ || f@ == "--set"@ || f@
            == "--inputs"@ || f@ == "--outputs"@ || f@ == "--formats"@ || f@ == "--out"@),
{
    str_eq(f, "--speed") || str_eq(f, "--alpha") || str_eq(f, "--sref") || str_eq(f, "--cref") || str_eq(f, "--set")
        || str_eq(f, "--inputs") || str_eq(f, "--outputs") || str_eq(f, "--formats") || str_eq(f, "--out")
}

pub fn parse_run(args: &[String]) -> (r: Result<RunArgs, String>)
    ensures
        match (r, run_from(words(args@), 0, run_defaults())) {
            (Ok(a), Ok(st)) => run_view(a) == st,
            (Err(e), Err(m)) => e@ == m,
            _ => false,
        },
{
    let ghost w = words(args@);
    let mut a = RunArgs {
        doc: String::new(),
        sets: Vec::new(),
        inputs: None,
        outputs: None,
        formats: vec![owned("3mf-group"), owned("stl-parts")],
        out: owned("."),
        openfoam: false,
        speed: owned("20"),
        alpha: owned("4"),
        sref: None,
        cref: None,
    };
    assert(run_view(a).sets =~= Seq::<(Seq<char>, Seq<char>)>::empty());
    assert(run_view(a).formats =~= seq!["3mf-group"@, "stl-parts"@]);
    assert(run_view(a) == run_defaults());
    let mut i: usize = 0;
    while i < args.len()
        invariant
            w == words(args@),
            run_from(w, 0, run_defaults()) == run_from(w, i as int, run_view(a)),
        decreases args@.len() - i,
    {
        let f = args[i].as_str();
        assert(w[i as int] == f@);
        let ghost st = run_view(a);
        if str_eq(f, "--openfoam") {
            a.openfoam = true;
            assert(run_view(a) == RunView { openfoam: true, ..st });
            i = i + 1;
        } else if takes_value(f) {
            if i + 1 >= args.len() {
                return Err(needs_value_text(f));
            }
            let v = args[i + 1].clone();
            assert(w[i + 1] == v@);
            if str_eq(f, "--speed") || str_eq(f, "--alpha") || str_eq(f, "--sref") || str_eq(f, "--cref") {
                if !float_ok(v.as_str()) {
                    let mut m = owned(f);
                    m.append(": ");
                    if v.as_str().is_empty() {
                        m.append("cannot parse float from empty string");
                    } else {
                        m.append("invalid float literal");
                    }
                    return Err(m);
                }
                if str_eq(f, "--speed") {
                    a.speed = v;
                    assert(run_view(a) == RunView { speed: w[i + 1], ..st });
                } else if str_eq(f, "--alpha") {
                    a.alpha = v;
                    assert(run_view(a) == RunView { alpha: w[i + 1], ..st });
                } else if str_eq(f, "--sref") {
                    a.sref = Some(v);
                    assert(run_view(a) == RunView { sref: Some(w[i + 1]), ..st });
                } else {
                    a.cref = Some(v);
                    assert(run_view(a) == RunView { cref: Some(w[i + 1]), ..st });
                }
            } else if str_eq(f, "--set") {
                let cv = chars_of(v.as_str());
                let k = match crate::xml::find_char(&cv, 0, '=') {
                    None => {
                        let mut m = owned("--set wants name=value, got ");
                        m.append(v.as_str());
                        return Err(m);
                    },
                    Some(k) => k,
                };
                proof {
                    crate::xml::lemma_find_from(cv@, 0, '=');
                }
                let (nlo, nhi) = trim_bounds(&cv, 0, k);
                let (elo, ehi) = trim_bounds(&cv, k + 1, cv.len());
                assert(cv@.subrange(0, k as int) =~= v@.take(k as int));
                assert(cv@.subrange(k + 1, cv@.len() as int) =~= v@.skip(k + 1));
                let name = string_of(cv.as_slice(), nlo, nhi);
                let expr = string_of(cv.as_slice(), elo, ehi);
                a.sets.push((name, expr));
                assert(run_view(a).sets =~= st.sets.push((trim(v@.take(k as int)), trim(v@.skip(k + 1)))));
            } else if str_eq(f, "--inputs") {
                a.inputs = Some(v);
                assert(run_view(a) == RunView { inputs: Some(w[i + 1]), ..st });
            } else if str_eq(f, "--outputs") {
                a.outputs = Some(v);
                assert(run_view(a) == RunView { outputs: Some(w[i + 1]), ..st });
            } else if str_eq(f, "--formats") {
                a.formats = format_list(&v);
                assert(run_view(a) == RunView { formats: format_names(pieces_from(w[i + 1], 0, Split::Comma)), ..st });
            } else {
                a.out = v;
                assert(run_view(a) == RunView { out: w[i + 1], ..st });
            }
            i = i + 2;
        } else {
            let fv = chars_of(f);
            if fv.len() >= 2 && fv[0] == '-' && fv[1] == '-' {
                return Err(unknown_option_text(f));
            }
            a.doc = args[i].clone();
            assert(run_view(a) == RunView { doc: w[i as int], ..st });
            i = i + 1;
        }
    }
    if a.doc.as_str().is_empty() {
        return Err(owned("give the .anvil document to run"));
    }
    Ok(a)
}

/// The file formats a run can export.
#[derive(Clone, Copy, Debug, PartialEq, Eq)]
pub enum ExportFormat {
    ThreeMf,
    ThreeMfGroup,
    Stl,
    StlParts,
    Step,
    Obj,
    Ply,
    Off,
    Amf,
    Gltf,
}

/// The format a name given to `--formats` stands for.
pub open spec fn format_named(n: Seq<char>) -> Option<ExportFormat> {
    if n == "3mf"@ {
        Some(ExportFormat::ThreeMf)
    } else if n == "3mf-group"@ {
        Some(ExportFormat::ThreeMfGroup)
    } else if n == "stl"@ {
        Some(ExportFormat::Stl)
    } else if n == "stl-parts"@ {
        Some(ExportFormat::StlParts)
    } else if n == "step"@ {
        Some(ExportFormat::Step)
    } else if n == "stp"@ {
        Some(ExportFormat::Step)
    } else if n == "obj"@ {
        Some(ExportFormat::Obj)
    } else if n == "ply"@ {
        Some(ExportFormat::Ply)
    } else if n == "off"@ {
        Some(ExportFormat::Off)
    } else if n == "amf"@ {
        Some(ExportFormat::Amf)
    } else if n == "gltf"@ {
        Some(ExportFormat::Gltf)
    } else {
        None
    }
}

/// The export format named `name`; an unknown name is an error that names it.
pub fn format_of(name: &str) -> (r: Result<ExportFormat, String>)
    ensures
        match format_named(name@) {
            Some(f) => r == Ok::<ExportFormat, String>(f),
            None => r matches Err(e) && e@ == "unknown format "@ + name@,
        },
{
    if str_eq(name, "3mf") {
        return Ok(ExportFormat::ThreeMf);
    }
    if str_eq(name, "3mf-group") {
        return Ok(ExportFormat::ThreeMfGroup);
    }
    if str_eq(name, "stl") {
        return Ok(ExportFormat::Stl);
    }
    if str_eq(name, "stl-parts") {
        return Ok(ExportFormat::StlParts);
    }
    if str_eq(name, "step") {
        return Ok(ExportFormat::Step);
    }
    if str_eq(name, "stp") {
        return Ok(ExportFormat::Step);
    }
    if str_eq(name, "obj") {
        return Ok(ExportFormat::Obj);
    }
    if str_eq(name, "ply") {
        return Ok(ExportFormat::Ply);
    }
    if str_eq(name, "off") {
        return Ok(ExportFormat::Off);
    }
    if str_eq(name, "amf") {
        return Ok(ExportFormat::Amf);
    }
    if str_eq(name, "gltf") {
        return Ok(ExportFormat::Gltf);
    }
    let mut e = owned("unknown format ");
    e.append(name);
    Err(e)
}

} // verus!
