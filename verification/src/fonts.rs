//! Font catalogue for the Text feature.
//!
//! Two sources:
//! * Bundled fonts, stored as `builtin:<name>`. They work on every
//!   machine, so documents that use them open the same everywhere.
//! * Fonts installed on the computer, stored as a file path. Finding them
//!   is the caller's work; this module orders them and names them.

use vstd::prelude::*;
use crate::text::{chars_of, eq_ignore_case, eq_ignore_case_from, owned, str_eq, string_of, text_lt, trim, trim_bounds};

verus! {

/// One font that the Text feature can use.
#[derive(Clone, Debug, PartialEq, Eq)]
pub struct FontEntry {
    /// Family name, for example "Arial".
    pub family: String,
    /// Style name, for example "Bold Italic".
    pub style: String,
    /// Value stored in the Text feature: `builtin:<name>` or a file path.
    pub source: String,
    pub builtin: bool,
}

/// The name a person reads: the family, followed by the style unless the
/// style is empty, "regular" or "book" (in any case).
pub open spec fn label_of(family: Seq<char>, style: Seq<char>) -> Seq<char> {
    if style.len() == 0 || eq_ignore_case(style, "regular"@) || eq_ignore_case(style, "book"@) {
        family
    } else {
        family + " "@ + style
    }
}

impl FontEntry {
    pub fn label(&self) -> (r: String)
        ensures
            r@ == label_of(self.family@, self.style@),
    {
        let st = chars_of(self.style.as_str());
        let regular = chars_of("regular");
        let book = chars_of("book");
        assert(st@.skip(0) =~= st@);
        assert(regular@.skip(0) =~= regular@);
        assert(book@.skip(0) =~= book@);
        if st.len() == 0 || eq_ignore_case_from(&st, 0, &regular, 0) || eq_ignore_case_from(&st, 0, &book, 0) {
            self.family.clone()
        } else {
            let mut r = self.family.clone();
            r.append(" ");
            r.append(self.style.as_str());
            r
        }
    }
}

/// The bundled fonts, heaviest first after the default. For 3D printing
/// with a 0.4 mm nozzle, strokes should be at least 0.8 mm wide, so small
/// text wants Archivo Black or a bold face.
pub open spec fn builtin_list() -> Seq<Seq<char>> {
    seq![
        "DejaVu Sans"@,
        "Archivo Black"@,
        "Liberation Sans Bold"@,
        "DejaVu Sans Bold"@,
        "DejaVu Serif"@,
        "DejaVu Serif Bold"@,
        "DejaVu Sans Mono"@,
    ]
}

pub fn builtin_names() -> (v: Vec<&'static str>)
    ensures
        v@.map_values(|n: &'static str| n@) == builtin_list(),
{
    let v = vec![
        "DejaVu Sans",
        "Archivo Black",
        "Liberation Sans Bold",
        "DejaVu Sans Bold",
        "DejaVu Serif",
        "DejaVu Serif Bold",
        "DejaVu Sans Mono",
    ];
    assert(v@.map_values(|n: &'static str| n@) =~= builtin_list());
    v
}

/// The catalogue entry of a bundled font.
pub open spec fn builtin_entry_ok(e: FontEntry, name: Seq<char>) -> bool {
    &&& e.family@ == name
    &&& e.style@ == Seq::<char>::empty()
    &&& e.source@ == "builtin:"@ + name
    &&& e.builtin
}

/// A catalogue entry as plain values: family, style, source, bundled.
pub open spec fn entry_view(e: FontEntry) -> (Seq<char>, Seq<char>, Seq<char>, bool) {
    (e.family@, e.style@, e.source@, e.builtin)
}

/// The entry of the bundled font `name`.
pub open spec fn builtin_view(name: Seq<char>) -> (Seq<char>, Seq<char>, Seq<char>, bool) {
    (name, Seq::<char>::empty(), "builtin:"@ + name, true)
}

/// The catalogue of the installed fonts `system`: the bundled fonts first,
/// then the installed ones by label, without repeated labels.
pub open spec fn catalogue_view(system: Seq<FontEntry>) -> Seq<(Seq<char>, Seq<char>, Seq<char>, bool)> {
    builtin_list().map_values(|n: Seq<char>| builtin_view(n)) + entry_views(dedup_labels(sorted_by_key(system)))
}

pub open spec fn entry_views(s: Seq<FontEntry>) -> Seq<(Seq<char>, Seq<char>, Seq<char>, bool)> {
    s.map_values(|e: FontEntry| entry_view(e))
}

/// A string in lower case, as `str::to_lowercase` gives it (Unicode rules).
pub uninterp spec fn lowercase(s: Seq<char>) -> Seq<char>;

/// Lower case by `str::to_lowercase`; its result is named `lowercase`.
#[verifier::external_body]
fn to_lower(s: &str) -> (r: String)
    ensures
        r@ == lowercase(s@),
{
    s.to_lowercase()
}

/// The order of installed fonts: by label in lower case.
pub open spec fn sort_key(e: FontEntry) -> Seq<char> {
    lowercase(label_of(e.family@, e.style@))
}

/// `e` put into the sorted list `s` after every entry whose key is not
/// greater than its own, which keeps equal keys in their first order.
pub open spec fn insert_by_key(s: Seq<FontEntry>, e: FontEntry) -> Seq<FontEntry>
    decreases s.len(),
{
    if s.len() == 0 {
        seq![e]
    } else if text_lt(sort_key(e), sort_key(s.last())) {
        insert_by_key(s.drop_last(), e).push(s.last())
    } else {
        s.push(e)
    }
}

/// The entries sorted by key, stably, as `sort_by_key` sorts.
pub open spec fn sorted_by_key(s: Seq<FontEntry>) -> Seq<FontEntry>
    decreases s.len(),
{
    if s.len() == 0 {
        s
    } else {
        insert_by_key(sorted_by_key(s.drop_last()), s.last())
    }
}

/// The entries without those whose label equals the label of the entry
/// kept just before them, as `dedup_by` drops them.
pub open spec fn dedup_labels(s: Seq<FontEntry>) -> Seq<FontEntry>
    decreases s.len(),
{
    if s.len() <= 1 {
        s
    } else {
        let d = dedup_labels(s.drop_last());
        if label_of(d.last().family@, d.last().style@) == label_of(s.last().family@, s.last().style@) {
            d
        } else {
            d.push(s.last())
        }
    }
}

/// Entries that read alike are put in the same places.
pub proof fn lemma_insert_views(a: Seq<FontEntry>, b: Seq<FontEntry>, x: FontEntry, y: FontEntry)
    requires
        entry_views(a) == entry_views(b),
        entry_view(x) == entry_view(y),
    ensures
        entry_views(insert_by_key(a, x)) == entry_views(insert_by_key(b, y)),
    decreases a.len(),
{
    assert(a.len() == entry_views(a).len() && b.len() == entry_views(b).len());
    if a.len() > 0 {
        assert(entry_view(a.last()) == entry_views(a)[a.len() - 1]);
        assert(entry_view(b.last()) == entry_views(b)[b.len() - 1]);
        assert(entry_views(a.drop_last()) =~= entry_views(a).drop_last());
        assert(entry_views(b.drop_last()) =~= entry_views(b).drop_last());
        lemma_insert_views(a.drop_last(), b.drop_last(), x, y);
        if text_lt(sort_key(x), sort_key(a.last())) {
            assert(entry_views(insert_by_key(a, x)) =~= entry_views(insert_by_key(a.drop_last(), x)).push(entry_view(a.last())));
            assert(entry_views(insert_by_key(b, y)) =~= entry_views(insert_by_key(b.drop_last(), y)).push(entry_view(b.last())));
        } else {
            assert(entry_views(insert_by_key(a, x)) =~= entry_views(a).push(entry_view(x)));
            assert(entry_views(insert_by_key(b, y)) =~= entry_views(b).push(entry_view(y)));
        }
    } else {
        assert(entry_views(insert_by_key(a, x)) =~= seq![entry_view(x)]);
        assert(entry_views(insert_by_key(b, y)) =~= seq![entry_view(y)]);
    }
}

/// Lists that read alike sort alike.
pub proof fn lemma_sorted_views(a: Seq<FontEntry>, b: Seq<FontEntry>)
    requires
        entry_views(a) == entry_views(b),
    ensures
        entry_views(sorted_by_key(a)) == entry_views(sorted_by_key(b)),
    decreases a.len(),
{
    assert(a.len() == entry_views(a).len() && b.len() == entry_views(b).len());
    if a.len() > 0 {
        assert(entry_view(a.last()) == entry_views(a)[a.len() - 1]);
        assert(entry_view(b.last()) == entry_views(b)[b.len() - 1]);
        assert(entry_views(a.drop_last()) =~= entry_views(a).drop_last());
        assert(entry_views(b.drop_last()) =~= entry_views(b).drop_last());
        lemma_sorted_views(a.drop_last(), b.drop_last());
        lemma_insert_views(sorted_by_key(a.drop_last()), sorted_by_key(b.drop_last()), a.last(), b.last());
    }
}

/// Lists that read alike lose the same repeated labels.
pub proof fn lemma_dedup_views(a: Seq<FontEntry>, b: Seq<FontEntry>)
    requires
        entry_views(a) == entry_views(b),
    ensures
        entry_views(dedup_labels(a)) == entry_views(dedup_labels(b)),
    decreases a.len(),
{
    assert(a.len() == entry_views(a).len() && b.len() == entry_views(b).len());
    if a.len() > 1 {
        assert(entry_view(a.last()) == entry_views(a)[a.len() - 1]);
        assert(entry_view(b.last()) == entry_views(b)[b.len() - 1]);
        assert(entry_views(a.drop_last()) =~= entry_views(a).drop_last());
        assert(entry_views(b.drop_last()) =~= entry_views(b).drop_last());
        lemma_dedup_views(a.drop_last(), b.drop_last());
        lemma_dedup_nonempty(a.drop_last());
        lemma_dedup_nonempty(b.drop_last());
        let da = dedup_labels(a.drop_last());
        let db = dedup_labels(b.drop_last());
        assert(da.len() == entry_views(da).len() && db.len() == entry_views(db).len());
        assert(entry_view(da.last()) == entry_views(da)[da.len() - 1]);
        assert(entry_view(db.last()) == entry_views(db)[db.len() - 1]);
        assert(entry_views(da.push(a.last())) =~= entry_views(da).push(entry_view(a.last())));
        assert(entry_views(db.push(b.last())) =~= entry_views(db).push(entry_view(b.last())));
    }
}

proof fn lemma_dedup_nonempty(s: Seq<FontEntry>)
    requires
        s.len() > 0,
    ensures
        dedup_labels(s).len() > 0,
    decreases s.len(),
{
    if s.len() > 1 {
        lemma_dedup_nonempty(s.drop_last());
    }
}

fn label_eq(a: &FontEntry, b: &FontEntry) -> (r: bool)
    ensures
        r == (label_of(a.family@, a.style@) == label_of(b.family@, b.style@)),
{
    let la = a.label();
    let lb = b.label();
    str_eq(la.as_str(), lb.as_str())
}

/// Whether `a` sorts before `b` by key.
fn key_less(a: &FontEntry, b: &FontEntry) -> (r: bool)
    ensures
        r == text_lt(sort_key(*a), sort_key(*b)),
{
    let ka = to_lower(a.label().as_str());
    let kb = to_lower(b.label().as_str());
    crate::text::text_less(ka.as_str(), kb.as_str())
}

/// Puts `e` into the sorted list `v`, as `insert_by_key`.
fn insert_entry(v: &mut Vec<FontEntry>, e: FontEntry)
    ensures
        final(v)@ == insert_by_key(old(v)@, e),
{
    let ghost o = v@;
    let mut k = v.len();
    assert(o.take(k as int) =~= o);
    assert(o.skip(k as int) =~= Seq::<FontEntry>::empty());
    while k > 0 && key_less(&e, &v[k - 1])
        invariant
            k <= o.len(),
            v@ == o,
            insert_by_key(o, e) == insert_by_key(o.take(k as int), e) + o.skip(k as int),
        decreases k,
    {
        let ghost t = o.take(k as int);
        assert(t.drop_last() =~= o.take(k - 1));
        assert(t.last() == o[k - 1]);
        assert(insert_by_key(t, e) == insert_by_key(o.take(k - 1), e).push(o[k - 1]));
        assert(o.skip(k - 1) =~= seq![o[k - 1]] + o.skip(k as int));
        assert(insert_by_key(o.take(k - 1), e).push(o[k - 1]) + o.skip(k as int) =~= insert_by_key(
            o.take(k - 1),
            e,
        ) + o.skip(k - 1));
        k = k - 1;
    }
    assert(insert_by_key(o.take(k as int), e) =~= o.take(k as int).push(e));
    v.insert(k, e);
    assert(v@ =~= o.take(k as int).push(e) + o.skip(k as int));
}

/// Every available font: the bundled ones first, then the installed ones
/// (`system`) by label, without repeated labels.
pub fn catalogue(system: Vec<FontEntry>) -> (out: Vec<FontEntry>)
    ensures
        out@.len() == builtin_list().len() + dedup_labels(sorted_by_key(system@)).len(),
        forall|k: int| 0 <= k < builtin_list().len() ==> builtin_entry_ok(#[trigger] out@[k], builtin_list()[k]),
        out@.skip(builtin_list().len() as int) == dedup_labels(sorted_by_key(system@)),
        entry_views(out@) == catalogue_view(system@),
{
    let names = builtin_names();
    let mut out: Vec<FontEntry> = Vec::new();
    let mut k: usize = 0;
    while k < names.len()
        invariant
            k <= names@.len(),
            names@.map_values(|n: &'static str| n@) == builtin_list(),
            out@.len() == k,
            forall|j: int| 0 <= j < k ==> builtin_entry_ok(#[trigger] out@[j], builtin_list()[j]),
        decreases names@.len() - k,
    {
        let n = names[k];
        assert(names@.map_values(|n: &'static str| n@)[k as int] == n@);
        let mut source = owned("builtin:");
        source.append(n);
        out.push(FontEntry { family: owned(n), style: String::new(), source, builtin: true });
        k = k + 1;
    }
    let ghost orig = system@;
    let mut rest = system;
    let mut sorted: Vec<FontEntry> = Vec::new();
    assert(orig.take(0) =~= Seq::<FontEntry>::empty());
    assert(orig.skip(0) =~= orig);
    while rest.len() > 0
        invariant
            rest@.len() <= orig.len(),
            rest@ == orig.skip(orig.len() - rest@.len()),
            sorted@ == sorted_by_key(orig.take(orig.len() - rest@.len())),
        decreases rest@.len(),
    {
        let ghost j = orig.len() - rest@.len();
        let e = rest.remove(0);
        assert(e == orig[j]);
        assert(orig.take(j + 1).drop_last() =~= orig.take(j));
        assert(rest@ =~= orig.skip(j + 1));
        insert_entry(&mut sorted, e);
    }
    assert(orig.take(orig.len() as int) =~= orig);
    let ghost srt = sorted@;
    let base = out.len();
    let mut left = sorted;
    assert(srt.take(0) =~= Seq::<FontEntry>::empty());
    assert(srt.skip(0) =~= srt);
    assert(out@.skip(base as int) =~= Seq::<FontEntry>::empty());
    while left.len() > 0
        invariant
            left@.len() <= srt.len(),
            left@ == srt.skip(srt.len() - left@.len()),
            base == builtin_list().len(),
            out@.len() >= base,
            forall|j: int| 0 <= j < base ==> builtin_entry_ok(#[trigger] out@[j], builtin_list()[j]),
            out@.skip(base as int) == dedup_labels(srt.take(srt.len() - left@.len())),
        decreases left@.len(),
    {
        let ghost i = srt.len() - left@.len();
        let ghost before = out@;
        let e = left.remove(0);
        assert(e == srt[i]);
        assert(left@ =~= srt.skip(i + 1));
        let ghost t = srt.take(i + 1);
        assert(t.drop_last() =~= srt.take(i));
        if out.len() == base {
            proof {
                if i > 0 {
                    lemma_dedup_nonempty(srt.take(i));
                }
                assert(t =~= seq![e]);
            }
            out.push(e);
            assert(out@.skip(base as int) =~= seq![e]);
        } else {
            proof {
                assert(i > 0) by {
                    if i == 0 {
                        assert(dedup_labels(srt.take(0)) =~= Seq::<FontEntry>::empty());
                    }
                }
                assert(dedup_labels(srt.take(i)).last() == out@[out@.len() - 1]);
            }
            if !label_eq(&out[out.len() - 1], &e) {
                out.push(e);
                assert(out@.skip(base as int) =~= before.skip(base as int).push(e));
            }
        }
        assert(forall|j: int| 0 <= j < base ==> out@[j] == before[j]);
    }
    assert(srt.take(srt.len() as int) =~= srt);
    proof {
        let b = builtin_list().len() as int;
        let w = entry_views(out@);
        let c = catalogue_view(system@);
        assert(w.len() == c.len());
        assert forall|j: int| 0 <= j < w.len() implies w[j] == c[j] by {
            if j < b {
                assert(builtin_entry_ok(out@[j], builtin_list()[j]));
            } else {
                assert(out@[j] == out@.skip(b)[j - b]);
            }
        }
        assert(w =~= c);
    }
    out
}

/// `t` is a stretch of `s`.
pub open spec fn piece_of(t: Seq<char>, s: Seq<char>) -> bool {
    exists|i: int, j: int| 0 <= i <= j <= s.len() && t == s.subrange(i, j)
}

/// A file stem as `Path::file_stem` gives one: a stretch of the path, not
/// empty, that holds no `/` (a separator on every platform).
pub open spec fn stem_of(t: Seq<char>, s: Seq<char>) -> bool {
    piece_of(t, s) && t.len() > 0 && !t.contains('/')
}

/// The file name of a path without its extension, by `Path::file_stem`.
/// Which stretch of the path that is follows the platform's path rules,
/// which this contract leaves open; it is a stretch of the final
/// component, so it is not empty and holds no `/`.
#[verifier::external_body]
fn file_stem(s: &str) -> (r: Option<String>)
    ensures
        r matches Some(t) ==> stem_of(t@, s@),
{
    std::path::Path::new(s).file_stem().and_then(|x| x.to_str()).map(|x| x.to_string())
}

/// The first entry of `cat` stored under `source`.
pub open spec fn first_with_source(cat: Seq<FontEntry>, source: Seq<char>) -> Option<FontEntry>
    decreases cat.len(),
{
    if cat.len() == 0 {
        None
    } else if cat[0].source@ == source {
        Some(cat[0])
    } else {
        first_with_source(cat.drop_first(), source)
    }
}

/// The prefix of bundled font sources.
pub open spec fn builtin_prefix() -> Seq<char> {
    seq!['b', 'u', 'i', 'l', 't', 'i', 'n', ':']
}

/// Whether `d` is how a font stored as `source` reads against the
/// catalogue `cat`, as `display_name` says.
pub open spec fn names_font(source: Seq<char>, cat: Seq<FontEntry>, d: Seq<char>) -> bool {
    let s = trim(source);
    if s.len() == 0 {
        d == "DejaVu Sans"@
    } else if s.len() >= 8 && s.take(8) == builtin_prefix() {
        d == s.skip(8)
    } else {
        match first_with_source(cat, s) {
            Some(f) => d == label_of(f.family@, f.style@),
            None => d == s || stem_of(d, s),
        }
    }
}

/// Human-readable name for a stored font source, looked up in `cat`.
/// Empty means the default font; `builtin:<name>` reads `<name>`; a path
/// in the catalogue reads as that font's label; any other path reads as
/// its file stem, or as itself when it has none.
pub fn display_name(source: &str, cat: &[FontEntry]) -> (r: String)
    ensures
        names_font(source@, cat@, r@),
{
    let cv = chars_of(source);
    let (lo, hi) = trim_bounds(&cv, 0, cv.len());
    assert(cv@.subrange(0, cv@.len() as int) =~= source@);
    let ghost s = trim(source@);
    let sv = piece_of_vec(&cv, lo, hi);
    if sv.len() == 0 {
        return owned("DejaVu Sans");
    }
    if sv.len() >= 8 && sv[0] == 'b' && sv[1] == 'u' && sv[2] == 'i' && sv[3] == 'l' && sv[4] == 't' && sv[5]
        == 'i' && sv[6] == 'n' && sv[7] == ':' {
        assert(s.take(8) =~= builtin_prefix());
        assert(sv@.subrange(8, sv@.len() as int) =~= s.skip(8));
        return string_of(sv.as_slice(), 8, sv.len());
    }
    proof {
        if s.len() >= 8 && s.take(8) == builtin_prefix() {
            assert(s.take(8)[0] == 'b');
            assert(s.take(8)[7] == ':');
        }
    }
    let st = string_of(sv.as_slice(), 0, sv.len());
    assert(sv@.subrange(0, sv@.len() as int) =~= s);
    let mut k: usize = 0;
    assert(cat@.skip(0) =~= cat@);
    while k < cat.len()
        invariant
            k <= cat@.len(),
            st@ == s,
            s == trim(source@),
            s.len() > 0,
            !(s.len() >= 8 && s.take(8) == builtin_prefix()),
            first_with_source(cat@, s) == first_with_source(cat@.skip(k as int), s),
        decreases cat@.len() - k,
    {
        assert(cat@.skip(k as int)[0] == cat@[k as int]);
        assert(cat@.skip(k as int).drop_first() =~= cat@.skip(k + 1));
        if str_eq(cat[k].source.as_str(), st.as_str()) {
            return cat[k].label();
        }
        k = k + 1;
    }
    match file_stem(st.as_str()) {
        Some(t) => t,
        None => st,
    }
}

/// `v[lo..hi]` as a list of its own.
fn piece_of_vec(v: &Vec<char>, lo: usize, hi: usize) -> (r: Vec<char>)
    requires
        lo <= hi <= v@.len(),
    ensures
        r@ == v@.subrange(lo as int, hi as int),
{
    let mut r: Vec<char> = Vec::new();
    let mut k = lo;
    while k < hi
        invariant
            lo <= k <= hi <= v@.len(),
            r@ == v@.subrange(lo as int, k as int),
        decreases hi - k,
    {
        r.push(v[k]);
        assert(r@ =~= v@.subrange(lo as int, k + 1));
        k = k + 1;
    }
    r
}

// ---------------------------------------------------------------- reading a font's names

/// One record of a font's name table, as plain values.
#[derive(Clone, Debug, PartialEq, Eq)]
pub struct FontName {
    /// The name id: 1 and 2 are the family and style, 16 and 17 their
    /// typographic forms.
    pub id: u16,
    /// Whether the record's encoding is Unicode.
    pub unicode: bool,
    /// The record's text, where it could be read.
    pub text: Option<String>,
}

/// Whether a record gives name `id`: Unicode, readable and not blank.
pub open spec fn gives_name(r: FontName, id: u16) -> bool {
    &&& r.id == id
    &&& r.unicode
    &&& r.text matches Some(t) && trim(t@).len() > 0
}

/// The text of the first record from `k` on that gives name `id`.
pub open spec fn name_from(names: Seq<FontName>, id: u16, k: int) -> Option<Seq<char>>
    decreases names.len() - k,
{
    if k < 0 || k >= names.len() {
        None
    } else if gives_name(names[k], id) {
        match names[k].text {
            Some(t) => Some(t@),
            None => None,
        }
    } else {
        name_from(names, id, k + 1)
    }
}

/// The name for the first of `ids` that some record gives.
pub open spec fn pick_name_of(names: Seq<FontName>, ids: Seq<u16>) -> Option<Seq<char>>
    decreases ids.len(),
{
    if ids.len() == 0 {
        None
    } else {
        match name_from(names, ids[0], 0) {
            Some(t) => Some(t),
            None => pick_name_of(names, ids.drop_first()),
        }
    }
}

/// Whether a text is empty or white space only.
fn blank(s: &str) -> (r: bool)
    ensures
        r == (trim(s@).len() == 0),
{
    let v = chars_of(s);
    assert(v@.subrange(0, v@.len() as int) =~= s@);
    let (lo, hi) = trim_bounds(&v, 0, v.len());
    lo == hi
}

/// The name for the first of `ids`, in order, that a record gives: the
/// first Unicode record with that id whose text is not blank.
pub fn pick_name(names: &[FontName], ids: &[u16]) -> (r: Option<String>)
    ensures
        match r {
            Some(t) => pick_name_of(names@, ids@) == Some(t@),
            None => pick_name_of(names@, ids@) is None,
        },
{
    let mut i: usize = 0;
    assert(ids@.skip(0) =~= ids@);
    while i < ids.len()
        invariant
            i <= ids@.len(),
            pick_name_of(names@, ids@) == pick_name_of(names@, ids@.skip(i as int)),
        decreases ids@.len() - i,
    {
        let id = ids[i];
        assert(ids@.skip(i as int)[0] == id);
        assert(ids@.skip(i as int).drop_first() =~= ids@.skip(i + 1));
        let mut k: usize = 0;
        while k < names.len()
            invariant
                k <= names@.len(),
                i < ids@.len(),
                id == ids@[i as int],
                pick_name_of(names@, ids@) == pick_name_of(names@, ids@.skip(i as int)),
                ids@.skip(i as int)[0] == id,
                name_from(names@, id, 0) == name_from(names@, id, k as int),
            decreases names@.len() - k,
        {
            let r = &names[k];
            if r.id == id && r.unicode {
                match &r.text {
                    Some(t) => {
                        if !blank(t.as_str()) {
                            return Some(t.clone());
                        }
                    },
                    None => {},
                }
            }
            k = k + 1;
        }
        i = i + 1;
    }
    None
}

/// The catalogue entry of an installed font stored under `source`, from
/// its name records: the typographic family, else the legacy one, is
/// needed; the style likewise, else empty.
pub fn entry_from_names(names: &[FontName], source: String) -> (r: Option<FontEntry>)
    ensures
        match pick_name_of(names@, seq![16u16, 1u16]) {
            None => r is None,
            Some(f) => r matches Some(e) && e.family@ == f && e.style@ == (match pick_name_of(
                names@,
                seq![17u16, 2u16],
            ) {
                Some(st) => st,
                None => Seq::<char>::empty(),
            }) && e.source@ == source@ && !e.builtin,
        },
{
    let fam_ids: [u16; 2] = [16, 1];
    let style_ids: [u16; 2] = [17, 2];
    assert(fam_ids@ =~= seq![16u16, 1u16]);
    assert(style_ids@ =~= seq![17u16, 2u16]);
    let family = match pick_name(names, &fam_ids) {
        Some(f) => f,
        None => return None,
    };
    let style = match pick_name(names, &style_ids) {
        Some(st) => st,
        None => String::new(),
    };
    Some(FontEntry { family, style, source, builtin: false })
}

#[verifier::external_type_specification]
#[verifier::external_body]
pub struct ExFace<'a>(ttf_parser::Face<'a>);

/// Whether `ttf_parser::Face::parse` finds a font face at index 0 of the bytes.
pub uninterp spec fn face_parses(data: Seq<u8>) -> bool;

/// Whether the face at index 0 of the bytes maps `c` to a glyph, as
/// `ttf_parser::Face::glyph_index` answers.
pub uninterp spec fn maps_glyph(data: Seq<u8>, c: char) -> bool;

/// The name records of the face at index 0 of the bytes, as
/// `ttf_parser::Face::names` lists them: id, whether Unicode, and text.
pub uninterp spec fn name_records(data: Seq<u8>) -> Seq<(u16, bool, Option<Seq<char>>)>;

/// A font face, kept with the bytes it was read from.
struct FontFace<'a> {
    face: ttf_parser::Face<'a>,
    data: &'a [u8],
}

impl<'a> View for FontFace<'a> {
    type V = Seq<u8>;

    /// The bytes the face was read from.
    closed spec fn view(&self) -> Seq<u8> {
        self.data@
    }
}

/// A name record as plain values.
pub open spec fn record_view(n: FontName) -> (u16, bool, Option<Seq<char>>) {
    (n.id, n.unicode, match n.text {
        Some(t) => Some(t@),
        None => None,
    })
}

pub open spec fn records_of(ns: Seq<FontName>) -> Seq<(u16, bool, Option<Seq<char>>)> {
    ns.map_values(|n: FontName| record_view(n))
}

/// `ttf_parser::Face::parse` at face index 0: the face, where the bytes
/// hold one, kept with those bytes. Which bytes do is named by
/// `face_parses`, not stated.
#[verifier::external_body]
fn parse_face<'a>(data: &'a [u8]) -> (r: Option<FontFace<'a>>)
    ensures
        r is Some == face_parses(data@),
        r matches Some(f) ==> f@ == data@,
{
    match ttf_parser::Face::parse(data, 0) {
        Ok(face) => Some(FontFace { face, data }),
        Err(_) => None,
    }
}

/// `ttf_parser::Face::glyph_index`: whether the face maps `c` to a glyph;
/// the answer is named `maps_glyph` of the face's bytes.
#[verifier::external_body]
fn face_has_glyph(f: &FontFace, c: char) -> (r: bool)
    ensures
        r == maps_glyph(f@, c),
{
    f.face.glyph_index(c).is_some()
}

/// `ttf_parser::Face::names`, each record handed out as its id, whether it
/// is Unicode (`Name::is_unicode`) and its text (`Name::to_string`); the
/// records are named `name_records` of the face's bytes.
#[verifier::external_body]
fn face_names(f: &FontFace) -> (r: Vec<FontName>)
    ensures
        records_of(r@) == name_records(f@),
{
    let mut out = Vec::new();
    for n in f.face.names() {
        out.push(FontName { id: n.name_id, unicode: n.is_unicode(), text: n.to_string() });
    }
    out
}

/// The family a face's name records give: the typographic family (16),
/// else the family (1).
pub open spec fn picked_family(ns: Seq<FontName>) -> Option<Seq<char>> {
    pick_name_of(ns, seq![16u16, 1u16])
}

/// The style a face's name records give: the typographic subfamily (17),
/// else the subfamily (2), else none.
pub open spec fn picked_style(ns: Seq<FontName>) -> Seq<char> {
    match pick_name_of(ns, seq![17u16, 2u16]) {
        Some(st) => st,
        None => Seq::<char>::empty(),
    }
}

/// Whether the face in the bytes is one the catalogue takes: it parses and
/// has a glyph for `A` (fonts without Latin letters are no use for
/// engraving).
pub open spec fn usable_face(data: Seq<u8>) -> bool {
    face_parses(data) && maps_glyph(data, 'A')
}

/// The catalogue entry of the font file stored under `source`, from its
/// bytes: none unless they hold a usable face with a family name; then the
/// family and style its name records give.
pub fn describe(data: &[u8], source: String) -> (r: Option<FontEntry>)
    ensures
        !usable_face(data@) ==> r is None,
        usable_face(data@) ==> forall|ns: Seq<FontName>|
            #[trigger] records_of(ns) == name_records(data@) ==> match picked_family(ns) {
                None => r is None,
                Some(f) => r matches Some(e) && e.family@ == f && e.style@ == picked_style(ns)
                    && e.source@ == source@ && !e.builtin,
            },
        r matches Some(e) ==> e.source@ == source@ && !e.builtin && trim(e.family@).len() > 0,
{
    let face = match parse_face(data) {
        Some(f) => f,
        None => return None,
    };
    if !face_has_glyph(&face, 'A') {
        return None;
    }
    let names = face_names(&face);
    let r = entry_from_names(names.as_slice(), source);
    proof {
        if r is Some {
            lemma_pick_gives(names@, seq![16u16, 1u16]);
        }
        assert forall|ns: Seq<FontName>| #[trigger] records_of(ns) == name_records(data@) implies
            picked_family(ns) == picked_family(names@) && picked_style(ns) == picked_style(names@) by {
            lemma_pick_by_records(ns, names@, seq![16u16, 1u16]);
            lemma_pick_by_records(ns, names@, seq![17u16, 2u16]);
        }
    }
    r
}

/// Name records that read alike give the same names.
proof fn lemma_pick_by_records(a: Seq<FontName>, b: Seq<FontName>, ids: Seq<u16>)
    requires
        records_of(a) == records_of(b),
    ensures
        pick_name_of(a, ids) == pick_name_of(b, ids),
    decreases ids.len(),
{
    if ids.len() > 0 {
        lemma_name_from_by_records(a, b, ids[0], 0);
        lemma_pick_by_records(a, b, ids.drop_first());
    }
}

proof fn lemma_name_from_by_records(a: Seq<FontName>, b: Seq<FontName>, id: u16, k: int)
    requires
        records_of(a) == records_of(b),
    ensures
        name_from(a, id, k) == name_from(b, id, k),
    decreases a.len() - k,
{
    assert(a.len() == records_of(a).len() && b.len() == records_of(b).len());
    if 0 <= k < a.len() {
        assert(record_view(a[k]) == records_of(a)[k]);
        assert(record_view(b[k]) == records_of(b)[k]);
        lemma_name_from_by_records(a, b, id, k + 1);
    }
}

/// A picked name is never blank.
proof fn lemma_pick_gives(names: Seq<FontName>, ids: Seq<u16>)
    ensures
        pick_name_of(names, ids) matches Some(t) ==> trim(t).len() > 0,
    decreases ids.len(),
{
    if ids.len() > 0 {
        lemma_name_from_gives(names, ids[0], 0);
        lemma_pick_gives(names, ids.drop_first());
    }
}

proof fn lemma_name_from_gives(names: Seq<FontName>, id: u16, k: int)
    ensures
        name_from(names, id, k) matches Some(t) ==> trim(t).len() > 0,
    decreases names.len() - k,
{
    if 0 <= k < names.len() && !gives_name(names[k], id) {
        lemma_name_from_gives(names, id, k + 1);
    }
}

} // verus!
