//! A small XML tag scanner, enough for 3MF and SVG. It yields start and
//! end tags with their attributes; text, comments, processing
//! instructions and CDATA are skipped. It is not a full XML parser.

use vstd::prelude::*;
use crate::text::{chars_of, is_white, lead_white, lemma_lead_white, string_of, trim, trim_bounds, white};

verus! {

// ---------------------------------------------------------------- searching

/// The first position at or after `from` that holds `c`.
pub open spec fn find_from(s: Seq<char>, from: int, c: char) -> Option<int>
    decreases s.len() - from,
{
    if from < 0 || from >= s.len() {
        None
    } else if s[from] == c {
        Some(from)
    } else {
        find_from(s, from + 1, c)
    }
}

/// `s` holds `pat` from position `k` on.
pub open spec fn holds_at(s: Seq<char>, k: int, pat: Seq<char>) -> bool {
    0 <= k && k + pat.len() <= s.len() && s.subrange(k, k + pat.len()) == pat
}

/// The first position at or after `from` where `pat` starts.
pub open spec fn find_text(s: Seq<char>, from: int, pat: Seq<char>) -> Option<int>
    decreases s.len() + 1 - from,
{
    if from < 0 || from + pat.len() > s.len() {
        None
    } else if holds_at(s, from, pat) {
        Some(from)
    } else {
        find_text(s, from + 1, pat)
    }
}

pub proof fn lemma_find_from(s: Seq<char>, from: int, c: char)
    requires
        0 <= from,
    ensures
        find_from(s, from, c) matches Some(k) ==> from <= k < s.len() && s[k] == c,
        find_from(s, from, c) matches Some(k) ==> forall|j: int| from <= j < k ==> s[j] != c,
        find_from(s, from, c) is None ==> forall|j: int| from <= j < s.len() ==> s[j] != c,
    decreases s.len() - from,
{
    if 0 <= from < s.len() && s[from] != c {
        lemma_find_from(s, from + 1, c);
    }
}

pub proof fn lemma_find_text(s: Seq<char>, from: int, pat: Seq<char>)
    ensures
        find_text(s, from, pat) matches Some(k) ==> from <= k && holds_at(s, k, pat),
    decreases s.len() + 1 - from,
{
    if 0 <= from && from + pat.len() <= s.len() && !holds_at(s, from, pat) {
        lemma_find_text(s, from + 1, pat);
    }
}

/// `v[lo..hi]` as a list of its own.
fn piece(v: &Vec<char>, lo: usize, hi: usize) -> (r: Vec<char>)
    requires
        lo <= hi <= v@.len(),
    ensures
        r@ == v@.subrange(lo as int, hi as int),
{
    let mut r: Vec<char> = Vec::new();
    let mut k = lo;
    while k < hi
        invariant
            lo <= k <= hi <= v@.len(),
            r@ == v@.subrange(lo as int, k as int),
        decreases hi - k,
    {
        r.push(v[k]);
        assert(r@ =~= v@.subrange(lo as int, k + 1));
        k = k + 1;
    }
    r
}

pub(crate) fn find_char(v: &Vec<char>, from: usize, c: char) -> (r: Option<usize>)
    ensures
        match r {
            Some(k) => find_from(v@, from as int, c) == Some(k as int),
            None => find_from(v@, from as int, c) is None,
        },
{
    let mut k = from;
    while k < v.len()
        invariant
            from <= k,
            find_from(v@, k as int, c) == find_from(v@, from as int, c),
        decreases v@.len() - k,
    {
        if v[k] == c {
            return Some(k);
        }
        k = k + 1;
    }
    None
}

fn holds(v: &Vec<char>, k: usize, pat: &Vec<char>) -> (r: bool)
    ensures
        r == holds_at(v@, k as int, pat@),
{
    if k > v.len() || pat.len() > v.len() - k {
        return false;
    }
    let mut j: usize = 0;
    while j < pat.len()
        invariant
            j <= pat@.len(),
            k + pat@.len() <= v@.len(),
            v@.len() <= usize::MAX,
            forall|q: int| 0 <= q < j ==> v@[k + q] == pat@[q],
        decreases pat@.len() - j,
    {
        if v[k + j] != pat[j] {
            assert(v@.subrange(k as int, k + pat@.len())[j as int] != pat@[j as int]);
            return false;
        }
        j = j + 1;
    }
    assert(v@.subrange(k as int, k + pat@.len()) =~= pat@);
    true
}

fn find_pat(v: &Vec<char>, from: usize, pat: &Vec<char>) -> (r: Option<usize>)
    requires
        pat@.len() > 0,
    ensures
        match r {
            Some(k) => find_text(v@, from as int, pat@) == Some(k as int),
            None => find_text(v@, from as int, pat@) is None,
        },
{
    let n = v.len();
    let mut k = from;
    while k <= v.len() && pat.len() <= v.len() - k
        invariant
            from <= k,
            pat@.len() > 0,
            v@.len() <= usize::MAX,
            find_text(v@, k as int, pat@) == find_text(v@, from as int, pat@),
        decreases v@.len() + 1 - k,
    {
        if holds(v, k, pat) {
            return Some(k);
        }
        k = k + 1;
    }
    None
}

// ---------------------------------------------------------------- names and values

/// The local part of a name: what follows its last `:`.
pub open spec fn local(n: Seq<char>) -> Seq<char>
    decreases n.len(),
{
    if n.len() == 0 {
        n
    } else if n.last() == ':' {
        n.skip(n.len() as int)
    } else {
        local(n.drop_last()).push(n.last())
    }
}

/// The local part of `v`, as a string.
fn local_of(v: &Vec<char>) -> (r: String)
    ensures
        r@ == local(v@),
{
    let mut k = v.len();
    assert(v@.take(k as int) =~= v@);
    assert(v@ + v@.skip(k as int) =~= v@);
    while k > 0 && v[k - 1] != ':'
        invariant
            k <= v@.len(),
            local(v@) == local(v@.take(k as int)) + v@.skip(k as int),
        decreases k,
    {
        assert(v@.take(k as int).drop_last() =~= v@.take(k - 1));
        assert(v@.skip(k - 1) =~= seq![v@[k - 1]] + v@.skip(k as int));
        assert(local(v@.take(k as int)) + v@.skip(k as int) =~= local(v@.take(k - 1)) + v@.skip(k - 1));
        k = k - 1;
    }
    assert(local(v@.take(k as int)) =~= Seq::<char>::empty());
    assert(v@.skip(k as int) =~= v@.subrange(k as int, v@.len() as int));
    assert(v@.take(v@.len() as int) =~= v@);
    string_of(v.as_slice(), k, v.len())
}

/// `s` with every `pat` replaced by `rep`, left to right, as `str::replace`.
pub open spec fn replaced(s: Seq<char>, pat: Seq<char>, rep: Seq<char>) -> Seq<char>
    decreases s.len(),
{
    if s.len() == 0 {
        s
    } else if pat.len() > 0 && pat.len() <= s.len() && s.take(pat.len() as int) == pat {
        rep + replaced(s.skip(pat.len() as int), pat, rep)
    } else {
        seq![s[0]] + replaced(s.drop_first(), pat, rep)
    }
}

pub(crate) fn replace_all(v: &Vec<char>, pat: &Vec<char>, rep: &Vec<char>) -> (r: Vec<char>)
    requires
        pat@.len() > 0,
    ensures
        r@ == replaced(v@, pat@, rep@),
{
    let mut r: Vec<char> = Vec::new();
    let mut k: usize = 0;
    assert(v@.skip(0) =~= v@);
    assert(r@ + replaced(v@, pat@, rep@) =~= replaced(v@, pat@, rep@));
    while k < v.len()
        invariant
            k <= v@.len(),
            pat@.len() > 0,
            replaced(v@, pat@, rep@) == r@ + replaced(v@.skip(k as int), pat@, rep@),
        decreases v@.len() - k,
    {
        let ghost rest = v@.skip(k as int);
        if holds(v, k, pat) {
            assert(rest.take(pat@.len() as int) =~= v@.subrange(k as int, k + pat@.len()));
            assert(rest.skip(pat@.len() as int) =~= v@.skip(k + pat@.len()));
            let mut j: usize = 0;
            let ghost r0 = r@;
            while j < rep.len()
                invariant
                    j <= rep@.len(),
                    r@ == r0 + rep@.take(j as int),
                decreases rep@.len() - j,
            {
                r.push(rep[j]);
                assert(r@ =~= r0 + rep@.take(j + 1));
                j = j + 1;
            }
            assert(rep@.take(rep@.len() as int) =~= rep@);
            assert(r0 + (rep@ + replaced(v@.skip(k + pat@.len()), pat@, rep@)) =~= r@ + replaced(
                v@.skip(k + pat@.len()),
                pat@,
                rep@,
            ));
            k = k + pat.len();
        } else {
            assert(!(rest.take(pat@.len() as int) == pat@) || pat@.len() > rest.len()) by {
                if pat@.len() <= rest.len() && rest.take(pat@.len() as int) == pat@ {
                    assert(v@.subrange(k as int, k + pat@.len()) =~= rest.take(pat@.len() as int));
                }
            }
            assert(rest.drop_first() =~= v@.skip(k + 1));
            let ghost r0 = r@;
            r.push(v[k]);
            assert(r0 + (seq![v@[k as int]] + replaced(v@.skip(k + 1), pat@, rep@)) =~= r@ + replaced(
                v@.skip(k + 1),
                pat@,
                rep@,
            ));
            k = k + 1;
        }
    }
    assert(v@.skip(k as int) =~= Seq::<char>::empty());
    assert(r@ + Seq::<char>::empty() =~= r@);
    r
}

/// An attribute value with its five predefined entities resolved, in the
/// order `&lt;`, `&gt;`, `&quot;`, `&apos;`, `&amp;`. A value without `&`
/// is kept as it is.
pub open spec fn unescaped(v: Seq<char>) -> Seq<char> {
    if !v.contains('&') {
        v
    } else {
        let a = replaced(v, seq!['&', 'l', 't', ';'], seq!['<']);
        let b = replaced(a, seq!['&', 'g', 't', ';'], seq!['>']);
        let c = replaced(b, seq!['&', 'q', 'u', 'o', 't', ';'], seq!['"']);
        let d = replaced(c, seq!['&', 'a', 'p', 'o', 's', ';'], seq!['\'']);
        replaced(d, seq!['&', 'a', 'm', 'p', ';'], seq!['&'])
    }
}

fn unescape(v: &Vec<char>) -> (r: String)
    ensures
        r@ == unescaped(v@),
{
    match find_char(v, 0, '&') {
        None => {
            proof {
                lemma_find_from(v@, 0, '&');
                assert(!v@.contains('&'));
            }
            string_of(v.as_slice(), 0, v.len())
        },
        Some(k) => {
            proof {
                lemma_find_from(v@, 0, '&');
                assert(v@.contains('&'));
            }
            let lt = vec!['&', 'l', 't', ';'];
            let gt = vec!['&', 'g', 't', ';'];
            let quot = vec!['&', 'q', 'u', 'o', 't', ';'];
            let apos = vec!['&', 'a', 'p', 'o', 's', ';'];
            let amp = vec!['&', 'a', 'm', 'p', ';'];
            assert(lt@ == seq!['&', 'l', 't', ';']);
            assert(gt@ == seq!['&', 'g', 't', ';']);
            assert(quot@ == seq!['&', 'q', 'u', 'o', 't', ';']);
            assert(apos@ == seq!['&', 'a', 'p', 'o', 's', ';']);
            assert(amp@ == seq!['&', 'a', 'm', 'p', ';']);
            let (c1, c2, c3, c4, c5) = (vec!['<'], vec!['>'], vec!['"'], vec!['\''], vec!['&']);
            assert(c1@ == seq!['<'] && c2@ == seq!['>'] && c3@ == seq!['"']);
            assert(c4@ == seq!['\''] && c5@ == seq!['&']);
            let a = replace_all(v, &lt, &c1);
            let b = replace_all(&a, &gt, &c2);
            let c = replace_all(&b, &quot, &c3);
            let d = replace_all(&c, &apos, &c4);
            let e = replace_all(&d, &amp, &c5);
            assert(v@.subrange(0, v@.len() as int) =~= v@);
            string_of(e.as_slice(), 0, e.len())
        },
    }
}

// ---------------------------------------------------------------- tags

/// A tag as the scanner reads it: local name, closing, empty, attributes.
pub type TagView = (Seq<char>, bool, bool, Seq<(Seq<char>, Seq<char>)>);

/// The closing marker of a comment, CDATA section, processing instruction
/// or declaration that starts at `p`, if one does.
pub open spec fn marker_close(s: Seq<char>, p: int) -> Option<Seq<char>> {
    if holds_at(s, p, seq!['!', '-', '-']) {
        Some(seq!['-', '-', '>'])
    } else if holds_at(s, p, seq!['!', '[', 'C', 'D', 'A', 'T', 'A', '[']) {
        Some(seq![']', ']', '>'])
    } else if holds_at(s, p, seq!['?']) {
        Some(seq!['?', '>'])
    } else if holds_at(s, p, seq!['!']) {
        Some(seq!['>'])
    } else {
        None
    }
}

/// Where a tag's name ends: at its first white space, or its end.
pub open spec fn name_end(b: Seq<char>) -> nat
    decreases b.len(),
{
    if b.len() == 0 || is_white(b[0]) {
        0
    } else {
        1 + name_end(b.drop_first())
    }
}

/// The attributes `key="value"` or `key='value'` in `a`, up to the first
/// that is not well formed.
pub open spec fn attrs_of(a: Seq<char>) -> Seq<(Seq<char>, Seq<char>)>
    decreases a.len(),
{
    match find_from(a, 0, '=') {
        None => Seq::empty(),
        Some(eq) => {
            let key = local(trim(a.take(eq)));
            let rest = a.skip(eq + 1);
            let after = rest.skip(lead_white(rest) as int);
            if after.len() == 0 || !(after[0] == '"' || after[0] == '\'') {
                Seq::empty()
            } else {
                match find_from(after, 1, after[0]) {
                    None => Seq::empty(),
                    Some(c) => {
                        proof {
                            lemma_find_from(a, 0, '=');
                            lemma_lead_white(rest);
                            lemma_find_from(after, 1, after[0]);
                        }
                        seq![(key, unescaped(after.subrange(1, c)))] + attrs_of(after.skip(c + 1))
                    },
                }
            }
        },
    }
}

/// The tag written between `<` and `>`.
pub open spec fn tag_of(inner: Seq<char>) -> TagView {
    let closing = inner.len() > 0 && inner[0] == '/';
    let a = if closing { inner.drop_first() } else { inner };
    let empty = a.len() > 0 && a.last() == '/';
    let b = if empty { a.drop_last() } else { a };
    let ne = name_end(b) as int;
    (local(b.take(ne)), closing, empty, attrs_of(b.skip(ne)))
}

/// The next tag of `s` at or after position `i`, and the position after it.
pub open spec fn next_spec(s: Seq<char>, i: int) -> Option<(TagView, int)>
    decreases s.len() + 1 - i,
{
    if i < 0 || i > s.len() {
        None
    } else {
        match find_from(s, i, '<') {
            None => None,
            Some(start) => match marker_close(s, start + 1) {
                Some(close) => match find_text(s, start + 1, close) {
                    None => None,
                    Some(k) => {
                        proof {
                            lemma_find_from(s, i, '<');
                            lemma_find_text(s, start + 1, close);
                        }
                        next_spec(s, k + close.len())
                    },
                },
                None => match find_from(s, start + 1, '>') {
                    None => None,
                    Some(gt) => Some((tag_of(s.subrange(start + 1, gt)), gt + 1)),
                },
            },
        }
    }
}

/// Reading goes on past where it stood.
pub proof fn lemma_next_spec(s: Seq<char>, i: int)
    requires
        0 <= i <= s.len(),
    ensures
        next_spec(s, i) matches Some((t, p)) ==> i < p <= s.len(),
    decreases s.len() + 1 - i,
{
    lemma_find_from(s, i, '<');
    if let Some(start) = find_from(s, i, '<') {
        match marker_close(s, start + 1) {
            Some(close) => {
                lemma_find_text(s, start + 1, close);
                if let Some(k) = find_text(s, start + 1, close) {
                    if k + close.len() <= s.len() {
                        lemma_next_spec(s, k + close.len());
                    }
                }
            },
            None => {
                lemma_find_from(s, start + 1, '>');
            },
        }
    }
}

/// Every tag of `s` from position `i` on, in order.
pub open spec fn tags_from(s: Seq<char>, i: int) -> Seq<TagView>
    decreases s.len() + 1 - i,
{
    if i < 0 || i > s.len() {
        Seq::empty()
    } else {
        match next_spec(s, i) {
            None => Seq::empty(),
            Some((t, p)) => {
                proof {
                    lemma_next_spec(s, i);
                }
                seq![t] + tags_from(s, p)
            },
        }
    }
}

/// The value of the first attribute named `k`.
pub open spec fn first_value(attrs: Seq<(Seq<char>, Seq<char>)>, k: Seq<char>) -> Option<Seq<char>>
    decreases attrs.len(),
{
    if attrs.len() == 0 {
        None
    } else if attrs[0].0 == k {
        Some(attrs[0].1)
    } else {
        first_value(attrs.drop_first(), k)
    }
}

pub open spec fn attr_views(a: Seq<(String, String)>) -> Seq<(Seq<char>, Seq<char>)> {
    a.map_values(|p: (String, String)| (p.0@, p.1@))
}

/// One start or end tag, with its attributes.
pub struct Tag {
    /// Local name, without a namespace prefix.
    pub name: String,
    pub closing: bool,
    /// True for `<x/>`.
    pub empty: bool,
    pub attrs: Vec<(String, String)>,
}

impl View for Tag {
    type V = TagView;

    open spec fn view(&self) -> TagView {
        (self.name@, self.closing, self.empty, attr_views(self.attrs@))
    }
}

impl Tag {
    /// The value of attribute `k`, if the tag has one.
    pub fn attr(&self, k: &str) -> (r: Option<&str>)
        ensures
            match (r, first_value(self@.3, k@)) {
                (Some(v), Some(w)) => v@ == w,
                (None, None) => true,
                _ => false,
            },
    {
        let mut j: usize = 0;
        assert(self@.3.skip(0) =~= self@.3);
        while j < self.attrs.len()
            invariant
                j <= self.attrs@.len(),
                first_value(self@.3, k@) == first_value(self@.3.skip(j as int), k@),
            decreases self.attrs@.len() - j,
        {
            let ghost rest = self@.3.skip(j as int);
            assert(rest[0] == (self.attrs@[j as int].0@, self.attrs@[j as int].1@));
            assert(rest.drop_first() =~= self@.3.skip(j + 1));
            if crate::text::str_eq(self.attrs[j].0.as_str(), k) {
                return Some(self.attrs[j].1.as_str());
            }
            j = j + 1;
        }
        None
    }
}

/// The tags of an XML text, read one at a time.
pub struct Tags {
    s: Vec<char>,
    i: usize,
}

impl Tags {
    /// The text being read.
    pub closed spec fn text(&self) -> Seq<char> {
        self.s@
    }

    /// Where reading goes on.
    pub closed spec fn pos(&self) -> int {
        self.i as int
    }

    pub fn new(s: &str) -> (t: Tags)
        ensures
            t.text() == s@,
            t.pos() == 0,
    {
        Tags { s: chars_of(s), i: 0 }
    }

    /// The next tag, or `None` when the text holds no more.
    pub fn next_tag(&mut self) -> (r: Option<Tag>)
        ensures
            final(self).text() == old(self).text(),
            match (r, next_spec(old(self).text(), old(self).pos())) {
                (None, None) => true,
                (Some(t), Some((v, p))) => t@ == v && final(self).pos() == p,
                _ => false,
            },
    {
        let ghost s = self.s@;
        let ghost i0 = self.i as int;
        loop
            invariant
                self.s@ == s,
                s == old(self).text(),
                i0 == old(self).pos(),
                next_spec(s, self.i as int) == next_spec(s, i0),
            decreases s.len() + 1 - self.i,
        {
            if self.i > self.s.len() {
                return None;
            }
            let start = match find_char(&self.s, self.i, '<') {
                None => return None,
                Some(st) => st,
            };
            proof {
                lemma_find_from(s, self.i as int, '<');
            }
            match marker_at(&self.s, start + 1) {
                Some(close) => {
                    match find_pat(&self.s, start + 1, &close) {
                        None => return None,
                        Some(k) => {
                            proof {
                                lemma_find_text(s, start + 1, close@);
                            }
                            self.i = k + close.len();
                        },
                    }
                },
                None => {
                    let gt = match find_char(&self.s, start + 1, '>') {
                        None => return None,
                        Some(g) => g,
                    };
                    proof {
                        lemma_find_from(s, start + 1, '>');
                    }
                    self.i = gt + 1;
                    let inner = piece(&self.s, start + 1, gt);
                    return Some(make_tag(&inner));
                },
            }
        }
    }
}

/// The closing marker for what starts at `p`, as `marker_close` gives it.
fn marker_at(v: &Vec<char>, p: usize) -> (r: Option<Vec<char>>)
    ensures
        match (r, marker_close(v@, p as int)) {
            (Some(c), Some(m)) => c@ == m && m.len() > 0,
            (None, None) => true,
            _ => false,
        },
{
    let comment = vec!['!', '-', '-'];
    let cdata = vec!['!', '[', 'C', 'D', 'A', 'T', 'A', '['];
    let pi = vec!['?'];
    let decl = vec!['!'];
    assert(comment@ == seq!['!', '-', '-']);
    assert(cdata@ == seq!['!', '[', 'C', 'D', 'A', 'T', 'A', '[']);
    assert(pi@ == seq!['?'] && decl@ == seq!['!']);
    let r = if holds(v, p, &comment) {
        Some(vec!['-', '-', '>'])
    } else if holds(v, p, &cdata) {
        Some(vec![']', ']', '>'])
    } else if holds(v, p, &pi) {
        Some(vec!['?', '>'])
    } else if holds(v, p, &decl) {
        Some(vec!['>'])
    } else {
        None
    };
    r
}

/// Where the name ends in `b`.
fn name_end_of(b: &Vec<char>) -> (k: usize)
    ensures
        k as nat == name_end(b@),
        k <= b@.len(),
{
    let mut k: usize = 0;
    assert(b@.skip(0) =~= b@);
    while k < b.len() && !white(b[k])
        invariant
            k <= b@.len(),
            name_end(b@) == k + name_end(b@.skip(k as int)),
        decreases b@.len() - k,
    {
        assert(b@.skip(k as int).drop_first() =~= b@.skip(k + 1));
        k = k + 1;
    }
    k
}

/// How much white space `v` starts with.
fn lead_white_of(v: &Vec<char>) -> (k: usize)
    ensures
        k as nat == lead_white(v@),
{
    let mut k: usize = 0;
    assert(v@.skip(0) =~= v@);
    while k < v.len() && white(v[k])
        invariant
            k <= v@.len(),
            lead_white(v@) == k + lead_white(v@.skip(k as int)),
        decreases v@.len() - k,
    {
        assert(v@.skip(k as int).drop_first() =~= v@.skip(k + 1));
        k = k + 1;
    }
    k
}

/// The attributes written in `a`.
fn parse_attrs(a: &Vec<char>) -> (r: Vec<(String, String)>)
    ensures
        attr_views(r@) == attrs_of(a@),
{
    let mut out: Vec<(String, String)> = Vec::new();
    let mut cur = piece(a, 0, a.len());
    assert(cur@ =~= a@);
    assert(attr_views(out@) + attrs_of(cur@) =~= attrs_of(a@));
    loop
        invariant
            attrs_of(a@) == attr_views(out@) + attrs_of(cur@),
        decreases cur@.len(),
    {
        let ghost c0 = cur@;
        let eq = match find_char(&cur, 0, '=') {
            None => {
                assert(attr_views(out@) + Seq::empty() =~= attr_views(out@));
                return out;
            },
            Some(e) => e,
        };
        proof {
            lemma_find_from(c0, 0, '=');
        }
        let n = cur.len();
        assert(eq < n);
        let (klo, khi) = trim_bounds(&cur, 0, eq);
        assert(c0.subrange(0, eq as int) =~= c0.take(eq as int));
        let key = local_of(&piece(&cur, klo, khi));
        let rest = piece(&cur, eq + 1, n);
        assert(rest@ =~= c0.skip(eq + 1));
        let w = lead_white_of(&rest);
        proof {
            lemma_lead_white(rest@);
        }
        let after = piece(&rest, w, rest.len());
        assert(after@ =~= rest@.skip(w as int));
        if after.len() == 0 || !(after[0] == '"' || after[0] == '\'') {
            assert(attr_views(out@) + Seq::empty() =~= attr_views(out@));
            return out;
        }
        let q = after[0];
        let c = match find_char(&after, 1, q) {
            None => {
                assert(attr_views(out@) + Seq::empty() =~= attr_views(out@));
                return out;
            },
            Some(c) => c,
        };
        proof {
            lemma_find_from(after@, 1, q);
        }
        let value = unescape(&piece(&after, 1, c));
        let ghost before = out@;
        out.push((key, value));
        cur = piece(&after, c + 1, after.len());
        proof {
            assert(cur@ =~= after@.skip(c + 1));
            assert(attr_views(out@) =~= attr_views(before).push((key@, value@)));
            assert(attrs_of(c0) == seq![(key@, value@)] + attrs_of(cur@));
            assert(attr_views(before) + (seq![(key@, value@)] + attrs_of(cur@)) =~= attr_views(out@)
                + attrs_of(cur@));
        }
    }
}

/// The tag written as `inner` between `<` and `>`.
fn make_tag(inner: &Vec<char>) -> (t: Tag)
    ensures
        t@ == tag_of(inner@),
{
    let n = inner.len();
    let closing = n > 0 && inner[0] == '/';
    let lo: usize = if closing { 1 } else { 0 };
    let empty = n > lo && inner[n - 1] == '/';
    let hi: usize = if empty { n - 1 } else { n };
    let b = piece(inner, lo, hi);
    proof {
        let a = if closing { inner@.drop_first() } else { inner@ };
        assert(a =~= inner@.subrange(lo as int, n as int));
        let bb = if empty { a.drop_last() } else { a };
        assert(b@ =~= bb);
    }
    let ne = name_end_of(&b);
    let name = local_of(&piece(&b, 0, ne));
    let attrs = parse_attrs(&piece(&b, ne, b.len()));
    assert(b@.subrange(0, ne as int) =~= b@.take(ne as int));
    assert(b@.subrange(ne as int, b@.len() as int) =~= b@.skip(ne as int));
    Tag { name, closing, empty, attrs }
}

} // verus!
