//! Which closed regions of a sketch a feature uses.
//!
//! Features store the choice as text: empty (or "all") means the default
//! regions, otherwise region indices separated by commas or spaces, for
//! example "0,2". The regions themselves come from the sketch geometry;
//! here each region is known by whether it is used by default.

use vstd::prelude::*;
use crate::document::RegenError;
use crate::text::{ascii_lower, chars_of, decimal, digit_char, eq_ignore_case, is_white, lead_white, lower, trail_white, owned, push_char, push_decimal, trim, trim_bounds};

verus! {

/// Which characters separate the items of a list.
#[derive(Clone, Copy, Debug, PartialEq, Eq)]
pub enum Split {
    /// Commas and spaces.
    CommaSpace,
    /// Commas and any white space.
    CommaWhite,
    /// Commas alone.
    Comma,
}

/// A character that separates the items of a list split by `m`.
pub open spec fn is_sep(c: char, m: Split) -> bool {
    c == ',' || match m {
        Split::CommaSpace => c == ' ',
        Split::CommaWhite => is_white(c),
        Split::Comma => false,
    }
}

/// The first separator at or after `i`, or the end.
pub open spec fn next_sep(t: Seq<char>, i: int, w: Split) -> int
    decreases t.len() - i,
{
    if 0 <= i < t.len() && !is_sep(t[i], w) {
        next_sep(t, i + 1, w)
    } else {
        i
    }
}

pub proof fn lemma_next_sep(t: Seq<char>, i: int, w: Split)
    requires
        0 <= i <= t.len(),
    ensures
        i <= next_sep(t, i, w) <= t.len(),
        forall|j: int| i <= j < next_sep(t, i, w) ==> !is_sep(#[trigger] t[j], w),
        next_sep(t, i, w) < t.len() ==> is_sep(t[next_sep(t, i, w)], w),
    decreases t.len() - i,
{
    if i < t.len() && !is_sep(t[i], w) {
        lemma_next_sep(t, i + 1, w);
    }
}

/// The pieces of `t[i..]` between separators, as `str::split` gives them.
pub open spec fn pieces_from(t: Seq<char>, i: int, w: Split) -> Seq<Seq<char>>
    decreases t.len() - i,
{
    if i < 0 || i > t.len() {
        Seq::empty()
    } else {
        let k = next_sep(t, i, w);
        proof {
            lemma_next_sep(t, i, w);
        }
        if k >= t.len() {
            seq![t.subrange(i, t.len() as int)]
        } else {
            seq![t.subrange(i, k)] + pieces_from(t, k + 1, w)
        }
    }
}

/// The value of a run of decimal digits.
pub open spec fn digits_value(s: Seq<char>) -> nat
    decreases s.len(),
{
    if s.len() == 0 {
        0
    } else {
        digits_value(s.drop_last()) * 10 + ((s.last() as int) - 48) as nat
    }
}

pub open spec fn is_digit_char(c: char) -> bool {
    '0' <= c <= '9'
}

pub open spec fn all_digit_chars(d: Seq<char>) -> bool {
    forall|i: int| 0 <= i < d.len() ==> is_digit_char(#[trigger] d[i])
}

/// A `usize` as `str::parse` reads it: an optional `+`, then decimal
/// digits, at most `usize::MAX`.
pub open spec fn parse_index(p: Seq<char>) -> Option<usize> {
    let d = if p.len() > 0 && p[0] == '+' { p.drop_first() } else { p };
    if d.len() > 0 && all_digit_chars(d) && digits_value(d) <= usize::MAX {
        Some(digits_value(d) as usize)
    } else {
        None
    }
}

/// The indices the pieces name, in order; pieces that are no index are skipped.
pub open spec fn numbers_in(ps: Seq<Seq<char>>) -> Seq<usize>
    decreases ps.len(),
{
    if ps.len() == 0 {
        Seq::empty()
    } else {
        match parse_index(trim(ps[0])) {
            Some(n) => seq![n] + numbers_in(ps.drop_first()),
            None => numbers_in(ps.drop_first()),
        }
    }
}

/// The regions a spec names: `None` for the default regions (empty text or
/// "all" in any case), else the set of indices it lists.
pub open spec fn selection(spec: Seq<char>) -> Option<Set<usize>> {
    let t = trim(spec);
    if t.len() == 0 || eq_ignore_case(t, "all"@) {
        None
    } else {
        Some(numbers_in(pieces_from(t, 0, Split::CommaSpace)).to_set())
    }
}

/// Strictly increasing.
pub open spec fn increasing(v: Seq<usize>) -> bool {
    forall|i: int, j: int| 0 <= i < j < v.len() ==> v[i] < v[j]
}

/// Indices joined by commas, as `format` writes them.
pub open spec fn joined(v: Seq<usize>) -> Seq<char>
    decreases v.len(),
{
    if v.len() == 0 {
        Seq::empty()
    } else if v.len() == 1 {
        decimal(v[0] as nat)
    } else {
        joined(v.drop_last()) + seq![','] + decimal(v.last() as nat)
    }
}

/// The indices `k < defaults.len()` with `defaults[k]`, in order.
pub open spec fn default_indices(defaults: Seq<bool>) -> Seq<usize>
    decreases defaults.len(),
{
    if defaults.len() == 0 {
        Seq::empty()
    } else if defaults.last() {
        default_indices(defaults.drop_last()).push((defaults.len() - 1) as usize)
    } else {
        default_indices(defaults.drop_last())
    }
}

/// `p[from..to]` as an index, if it is one.
pub(crate) fn parse_index_at(p: &Vec<char>, from: usize, to: usize) -> (r: Option<usize>)
    requires
        from <= to <= p@.len(),
    ensures
        r == parse_index(p@.subrange(from as int, to as int)),
{
    let ghost s = p@.subrange(from as int, to as int);
    let mut start = from;
    if from < to && p[from] == '+' {
        start = from + 1;
    }
    let ghost d = p@.subrange(start as int, to as int);
    assert(d == if s.len() > 0 && s[0] == '+' { s.drop_first() } else { s });
    if start == to {
        return None;
    }
    let mut acc: u128 = 0;
    let mut big = false;
    let mut i = start;
    while i < to
        invariant
            from <= start <= i <= to <= p@.len(),
            d == p@.subrange(start as int, to as int),
            s == p@.subrange(from as int, to as int),
            d == if s.len() > 0 && s[0] == '+' { s.drop_first() } else { s },
            forall|j: int| start <= j < i ==> is_digit_char(#[trigger] p@[j]),
            !big ==> acc as nat == digits_value(p@.subrange(start as int, i as int)) && acc <= usize::MAX,
            big ==> digits_value(p@.subrange(start as int, i as int)) > usize::MAX,
        decreases to - i,
    {
        let c = p[i];
        if !('0' <= c && c <= '9') {
            assert(!is_digit_char(d[i - start]));
            assert(!all_digit_chars(d));
            return None;
        }
        let ghost pre = p@.subrange(start as int, i as int);
        assert(p@.subrange(start as int, i + 1).drop_last() =~= pre);
        if !big {
            let next = acc * 10 + (c as u128 - 48);
            if next > usize::MAX as u128 {
                big = true;
            } else {
                acc = next;
            }
        }
        i = i + 1;
    }
    assert forall|j: int| 0 <= j < d.len() implies is_digit_char(#[trigger] d[j]) by {
        assert(d[j] == p@[start + j]);
    }
    assert(p@.subrange(start as int, i as int) =~= d);
    if big {
        None
    } else {
        Some(acc as usize)
    }
}

/// Two increasing lists with the same elements are the same list.
pub proof fn lemma_increasing_unique(a: Seq<usize>, b: Seq<usize>)
    requires
        increasing(a),
        increasing(b),
        a.to_set() == b.to_set(),
    ensures
        a == b,
    decreases a.len(),
{
    if a.len() == 0 {
        if b.len() > 0 {
            assert(b.to_set().contains(b[0]));
        }
        assert(a =~= b);
    } else {
        assert(a.to_set().contains(a[0]));
        assert(b.to_set().contains(a[0]));
        let j = choose|j: int| 0 <= j < b.len() && b[j] == a[0];
        assert(b.to_set().contains(b[0]));
        assert(a.to_set().contains(b[0]));
        let i = choose|i: int| 0 <= i < a.len() && a[i] == b[0];
        assert(a[0] == b[0]) by {
            if a[0] != b[0] {
                assert(j > 0 && i > 0);
                assert(b[0] < b[j]);
                assert(a[0] < a[i]);
            }
        }
        let a2 = a.drop_first();
        let b2 = b.drop_first();
        assert forall|x: usize| a2.to_set().contains(x) <==> b2.to_set().contains(x) by {
            if a2.to_set().contains(x) {
                let k = choose|k: int| 0 <= k < a2.len() && a2[k] == x;
                assert(a[k + 1] == x && x != a[0]);
                assert(a.to_set().contains(x));
                let m = choose|m: int| 0 <= m < b.len() && b[m] == x;
                assert(m > 0);
                assert(b2[m - 1] == x);
            }
            if b2.to_set().contains(x) {
                let k = choose|k: int| 0 <= k < b2.len() && b2[k] == x;
                assert(b[k + 1] == x && x != b[0]);
                assert(b.to_set().contains(x));
                let m = choose|m: int| 0 <= m < a.len() && a[m] == x;
                assert(m > 0);
                assert(a2[m - 1] == x);
            }
        }
        assert(a2.to_set() =~= b2.to_set());
        lemma_increasing_unique(a2, b2);
        assert(a =~= b) by {
            assert forall|k: int| 0 <= k < a.len() implies a[k] == b[k] by {
                if k > 0 {
                    assert(a[k] == a2[k - 1]);
                    assert(b[k] == b2[k - 1]);
                }
            }
        }
    }
}

/// Adds `x` to an increasing list, keeping it increasing.
fn insert_sorted(v: &mut Vec<usize>, x: usize)
    requires
        increasing(old(v)@),
    ensures
        increasing(final(v)@),
        final(v)@.to_set() == old(v)@.to_set().insert(x),
{
    let ghost o = v@;
    let mut i: usize = 0;
    while i < v.len() && v[i] < x
        invariant
            i <= v@.len(),
            v@ == o,
            forall|j: int| 0 <= j < i ==> #[trigger] o[j] < x,
        decreases v@.len() - i,
    {
        i = i + 1;
    }
    if i < v.len() && v[i] == x {
        assert(o.to_set().insert(x) =~= o.to_set());
        return;
    }
    v.insert(i, x);
    proof {
        assert(v@ == o.insert(i as int, x));
        assert forall|a: int, b: int| 0 <= a < b < v@.len() implies v@[a] < v@[b] by {
            if b < i {
            } else if a < i && b == i {
            } else if a < i {
                assert(v@[b] == o[b - 1]);
            } else if a == i {
                assert(v@[b] == o[b - 1]);
                assert(o[i as int] >= x);
                if b - 1 > i {
                    assert(o[i as int] < o[b - 1]);
                }
            } else {
                assert(v@[a] == o[a - 1] && v@[b] == o[b - 1]);
            }
        }
        assert forall|y: usize| v@.to_set().contains(y) <==> o.to_set().insert(x).contains(y) by {
            if o.to_set().contains(y) {
                let k = choose|k: int| 0 <= k < o.len() && o[k] == y;
                if k < i {
                    assert(v@[k] == y);
                } else {
                    assert(v@[k + 1] == y);
                }
            }
            if y == x {
                assert(v@[i as int] == x);
            }
            if v@.to_set().contains(y) {
                let k = choose|k: int| 0 <= k < v@.len() && v@[k] == y;
                if k < i {
                    assert(o[k] == y);
                } else if k > i {
                    assert(o[k - 1] == y);
                }
            }
        }
        assert(v@.to_set() =~= o.to_set().insert(x));
    }
}

pub(crate) proof fn lemma_numbers_in_cons(p: Seq<char>, rest: Seq<Seq<char>>)
    ensures
        numbers_in(seq![p] + rest) == match parse_index(trim(p)) {
            Some(n) => seq![n] + numbers_in(rest),
            None => numbers_in(rest),
        },
{
    assert((seq![p] + rest).drop_first() =~= rest);
    assert((seq![p] + rest)[0] == p);
}

/// Region indices named by `spec`, or `None` for the default regions.
/// The indices come back increasing and without repeats.
pub fn parse(spec: &str) -> (r: Option<Vec<usize>>)
    ensures
        match (r, selection(spec@)) {
            (None, None) => true,
            (Some(v), Some(s)) => increasing(v@) && v@.to_set() == s,
            _ => false,
        },
{
    let cv = chars_of(spec);
    let (lo, hi) = trim_bounds(&cv, 0, cv.len());
    assert(cv@.subrange(0, cv@.len() as int) =~= spec@);
    let mut tv: Vec<char> = Vec::new();
    let mut c = lo;
    while c < hi
        invariant
            lo <= c <= hi <= cv@.len(),
            tv@ == cv@.subrange(lo as int, c as int),
        decreases hi - c,
    {
        tv.push(cv[c]);
        assert(tv@ =~= cv@.subrange(lo as int, c + 1));
        c = c + 1;
    }
    let ghost t = trim(spec@);
    assert(tv@ == t);
    let n = tv.len();
    if n == 0 {
        return None;
    }
    proof {
        reveal_strlit("all");
    }
    if n == 3 && lower(tv[0]) == 'a' && lower(tv[1]) == 'l' && lower(tv[2]) == 'l' {
        assert(eq_ignore_case(t, "all"@));
        return None;
    }
    assert(!eq_ignore_case(t, "all"@));
    let mut v: Vec<usize> = Vec::new();
    let ghost mut seen: Seq<usize> = Seq::empty();
    let mut i: usize = 0;
    loop
        invariant
            tv@ == t,
            t == trim(spec@),
            t.len() > 0,
            !eq_ignore_case(t, "all"@),
            n == t.len(),
            i <= n,
            numbers_in(pieces_from(t, 0, Split::CommaSpace)) == seen + numbers_in(pieces_from(t, i as int, Split::CommaSpace)),
            increasing(v@),
            v@.to_set() == seen.to_set(),
        decreases n - i,
    {
        let mut k = i;
        while k < n && !(tv[k] == ',' || tv[k] == ' ')
            invariant
                i <= k <= n == tv@.len(),
                next_sep(tv@, k as int, Split::CommaSpace) == next_sep(tv@, i as int, Split::CommaSpace),
            decreases n - k,
        {
            k = k + 1;
        }
        let (a, b) = trim_bounds(&tv, i, k);
        let got = parse_index_at(&tv, a, b);
        let ghost piece = t.subrange(i as int, k as int);
        let ghost rest = if k >= n {
            Seq::<Seq<char>>::empty()
        } else {
            pieces_from(t, k + 1, Split::CommaSpace)
        };
        proof {
            assert(pieces_from(t, i as int, Split::CommaSpace) =~= seq![piece] + rest);
            lemma_numbers_in_cons(piece, rest);
        }
        match got {
            Some(x) => {
                insert_sorted(&mut v, x);
                proof {
                    Seq::lemma_to_set_insert_commutes(seen, x);
                    assert(seen + (seq![x] + numbers_in(rest)) =~= (seen + seq![x]) + numbers_in(rest));
                    seen = seen + seq![x];
                }
            },
            None => {},
        }
        if k >= n {
            assert(numbers_in(rest) == Seq::<usize>::empty());
            assert(seen + Seq::<usize>::empty() =~= seen);
            assert(numbers_in(pieces_from(t, 0, Split::CommaSpace)) == seen);
            assert(selection(spec@) == Some(seen.to_set()));
            return Some(v);
        }
        i = k + 1;
    }
}

/// The indices joined by commas: "0,2".
pub fn format(sel: &[usize]) -> (r: String)
    ensures
        r@ == joined(sel@),
{
    let mut r = String::new();
    let mut i: usize = 0;
    while i < sel.len()
        invariant
            i <= sel@.len(),
            r@ == joined(sel@.take(i as int)),
        decreases sel@.len() - i,
    {
        assert(sel@.take(i + 1).drop_last() =~= sel@.take(i as int));
        if i > 0 {
            push_char(&mut r, ',');
        }
        push_decimal(&mut r, sel[i] as u64);
        proof {
            if i == 0 {
                assert(joined(sel@.take(0)) =~= Seq::<char>::empty());
                assert(r@ =~= decimal(sel@[0] as nat));
            } else {
                assert(r@ =~= joined(sel@.take(i as int)) + seq![','] + decimal(sel@[i as int] as nat));
            }
        }
        i = i + 1;
    }
    assert(sel@.take(sel@.len() as int) =~= sel@);
    r
}

/// The indices of the regions used by default, in order.
fn defaults_list(defaults: &[bool]) -> (v: Vec<usize>)
    ensures
        v@ == default_indices(defaults@),
{
    let mut v: Vec<usize> = Vec::new();
    let mut i: usize = 0;
    while i < defaults.len()
        invariant
            i <= defaults@.len(),
            v@ == default_indices(defaults@.take(i as int)),
        decreases defaults@.len() - i,
    {
        assert(defaults@.take(i + 1).drop_last() =~= defaults@.take(i as int));
        if defaults[i] {
            v.push(i);
        }
        i = i + 1;
    }
    assert(defaults@.take(defaults@.len() as int) =~= defaults@);
    v
}

/// True when region `i` is used under `spec`.
pub fn is_selected(defaults: &[bool], spec: &str, i: usize) -> (r: bool)
    ensures
        r == match selection(spec@) {
            None => i < defaults@.len() && defaults@[i as int],
            Some(s) => s.contains(i),
        },
{
    match parse(spec) {
        None => i < defaults.len() && defaults[i],
        Some(v) => {
            assert(selection(spec@) is Some && selection(spec@)->0 == v@.to_set());
            let mut k: usize = 0;
            while k < v.len()
                invariant
                    k <= v@.len(),
                    selection(spec@) is Some && selection(spec@)->0 == v@.to_set(),
                    forall|j: int| 0 <= j < k ==> v@[j] != i,
                decreases v@.len() - k,
            {
                if v[k] == i {
                    assert(v@[k as int] == i);
                    assert(v@.to_set().contains(i));
                    return true;
                }
                k = k + 1;
            }
            false
        },
    }
}

/// A union-find forest in which every entry points at itself or lower.
pub open spec fn forest(uf: Seq<usize>) -> bool {
    forall|k: int| 0 <= k < uf.len() ==> #[trigger] uf[k] <= k
}

/// The root that `i` reaches by following its parents.
pub open spec fn root_of(uf: Seq<usize>, i: int) -> int
    decreases i,
{
    if 0 <= i < uf.len() && uf[i] < i {
        root_of(uf, uf[i] as int)
    } else {
        i
    }
}

/// A root points at itself and is no greater than where it was reached from.
pub proof fn lemma_root(uf: Seq<usize>, i: int)
    requires
        forest(uf),
        0 <= i < uf.len(),
    ensures
        0 <= root_of(uf, i) <= i,
        uf[root_of(uf, i)] == root_of(uf, i),
    decreases i,
{
    if uf[i] < i {
        lemma_root(uf, uf[i] as int);
    }
}

/// Pointing `i` at its grandparent keeps every root.
proof fn lemma_halve(uf: Seq<usize>, i: int, k: int)
    requires
        forest(uf),
        0 <= i < uf.len(),
    ensures
        forest(uf.update(i, uf[uf[i] as int])),
        root_of(uf.update(i, uf[uf[i] as int]), k) == root_of(uf, k),
    decreases k,
{
    let u = uf.update(i, uf[uf[i] as int]);
    assert(forest(u)) by {
        assert forall|j: int| 0 <= j < u.len() implies #[trigger] u[j] <= j by {
            if j == i {
                assert(uf[uf[i] as int] <= uf[i]);
            }
        }
    }
    if 0 <= k < uf.len() && u[k] < k {
        lemma_halve(uf, i, u[k] as int);
        if k == i {
            let p = uf[i] as int;
            assert(p < i);
            assert(root_of(uf, i) == root_of(uf, p));
            assert(root_of(uf, p) == root_of(uf, uf[p] as int));
        }
    }
}

/// Pointing root `big` at root `small < big` moves `big`'s class under `small`.
proof fn lemma_link(uf: Seq<usize>, big: int, small: usize, k: int)
    requires
        forest(uf),
        0 <= small < big < uf.len(),
        uf[big] == big,
        uf[small as int] == small,
    ensures
        forest(uf.update(big, small)),
        root_of(uf.update(big, small), k) == if root_of(uf, k) == big { small as int } else { root_of(uf, k) },
    decreases k,
{
    let u = uf.update(big, small);
    assert(forest(u)) by {
        assert forall|j: int| 0 <= j < u.len() implies #[trigger] u[j] <= j by {
            if j == big {
            }
        }
    }
    if 0 <= k < uf.len() && u[k] < k {
        lemma_link(uf, big, small, u[k] as int);
        if k == big {
            assert(root_of(u, small as int) == small as int);
        }
    }
}

/// The root of `i`, halving the path on the way.
pub fn find(uf: &mut [usize], i: usize) -> (r: usize)
    requires
        forest(old(uf)@),
        i < old(uf)@.len(),
    ensures
        final(uf)@.len() == old(uf)@.len(),
        forest(final(uf)@),
        r as int == root_of(old(uf)@, i as int),
        forall|k: int| root_of(final(uf)@, k) == root_of(old(uf)@, k),
{
    let ghost start = uf@;
    let ghost i0 = i as int;
    let mut i = i;
    while uf[i] != i
        invariant
            uf@.len() == start.len(),
            forest(uf@),
            i < uf@.len(),
            root_of(uf@, i as int) == root_of(start, i0),
            forall|k: int| root_of(uf@, k) == root_of(start, k),
        decreases i,
    {
        let p = uf[i];
        let g = uf[p];
        proof {
            assert forall|k: int| root_of(uf@.update(i as int, g), k) == root_of(uf@, k) by {
                lemma_halve(uf@, i as int, k);
            }
            lemma_halve(uf@, i as int, i as int);
        }
        uf[i] = g;
        i = g;
    }
    i
}

/// Joins the classes of `a` and `b`; the smaller root stays the root.
pub fn union(uf: &mut [usize], a: usize, b: usize)
    requires
        forest(old(uf)@),
        a < old(uf)@.len(),
        b < old(uf)@.len(),
    ensures
        final(uf)@.len() == old(uf)@.len(),
        forest(final(uf)@),
        forall|k: int| #[trigger] root_of(final(uf)@, k) == {
            let (ra, rb) = (root_of(old(uf)@, a as int), root_of(old(uf)@, b as int));
            let r = root_of(old(uf)@, k);
            if r == ra || r == rb {
                if ra < rb { ra } else { rb }
            } else {
                r
            }
        },
{
    let ra = find(uf, a);
    let rb = find(uf, b);
    proof {
        lemma_root(uf@, a as int);
        lemma_root(uf@, b as int);
    }
    if ra != rb {
        let (big, small) = if ra < rb { (rb, ra) } else { (ra, rb) };
        proof {
            assert forall|k: int| root_of(uf@.update(big as int, small), k) == if root_of(uf@, k)
                == big { small as int } else { root_of(uf@, k) } by {
                lemma_link(uf@, big as int, small, k);
            }
            lemma_link(uf@, big as int, small, 0);
        }
        uf[big] = small;
    }
}

/// The increasing list of the indices in `s`.
pub open spec fn in_order(s: Set<usize>) -> Seq<usize> {
    choose|v: Seq<usize>| increasing(v) && v.to_set() == s
}

/// The regions in use before a click: the listed ones, or the defaults.
pub open spec fn in_use(defaults: Seq<bool>, spec: Seq<char>) -> Set<usize> {
    match selection(spec) {
        None => default_indices(defaults).to_set(),
        Some(s) => s,
    }
}

/// The regions in use after a click on region `i`: indices past the last
/// region are dropped, then `i` is dropped if it was in use, else added.
pub open spec fn toggled(defaults: Seq<bool>, spec: Seq<char>, i: usize) -> Set<usize> {
    let kept = in_use(defaults, spec).filter(|k: usize| k < defaults.len());
    if kept.contains(i) {
        kept.remove(i)
    } else {
        kept.insert(i)
    }
}

/// The spec text after a click: empty when the result is the default
/// regions, else the indices in increasing order.
pub open spec fn toggle_text(defaults: Seq<bool>, spec: Seq<char>, i: usize) -> Seq<char> {
    let t = toggled(defaults, spec, i);
    if t == default_indices(defaults).to_set() {
        Seq::empty()
    } else {
        joined(in_order(t))
    }
}

/// The default indices are increasing, below the count, and exactly the
/// flagged ones.
pub proof fn lemma_default_indices(defaults: Seq<bool>)
    requires
        defaults.len() <= usize::MAX,
    ensures
        increasing(default_indices(defaults)),
        forall|j: int|
            0 <= j < default_indices(defaults).len() ==> #[trigger] default_indices(defaults)[j]
                < defaults.len(),
        forall|k: usize|
            #[trigger] default_indices(defaults).to_set().contains(k) <==> (k < defaults.len()
                && defaults[k as int]),
    decreases defaults.len(),
{
    if defaults.len() > 0 {
        let pre = defaults.drop_last();
        lemma_default_indices(pre);
        let d = default_indices(pre);
        assert forall|k: usize| #[trigger] default_indices(defaults).to_set().contains(k) <==> (k
            < defaults.len() && defaults[k as int]) by {
            if defaults.last() {
                Seq::lemma_push_to_set_commute(d, (defaults.len() - 1) as usize);
            }
            if k < pre.len() {
                assert(pre[k as int] == defaults[k as int]);
            }
        }
    }
}

/// An increasing list is the one `in_order` gives for its elements.
pub proof fn lemma_in_order(v: Seq<usize>)
    requires
        increasing(v),
    ensures
        in_order(v.to_set()) == v,
{
    let w = in_order(v.to_set());
    assert(increasing(w) && w.to_set() == v.to_set());
    lemma_increasing_unique(w, v);
}

/// Whether two lists are equal.
fn same(a: &Vec<usize>, b: &Vec<usize>) -> (r: bool)
    ensures
        r == (a@ == b@),
{
    if a.len() != b.len() {
        return false;
    }
    let mut k: usize = 0;
    while k < a.len()
        invariant
            k <= a@.len() == b@.len(),
            forall|j: int| 0 <= j < k ==> a@[j] == b@[j],
        decreases a@.len() - k,
    {
        if a[k] != b[k] {
            return false;
        }
        k = k + 1;
    }
    assert(a@ =~= b@);
    true
}

/// The spec after a click on region `i`. A click on a used region drops
/// it; a click on an unused one adds it. Ending on the default regions
/// gives back the empty spec.
pub fn toggle(defaults: &[bool], spec: &str, i: usize) -> (r: String)
    ensures
        r@ == toggle_text(defaults@, spec@, i),
{
    let n = defaults.len();
    let d = defaults_list(defaults);
    proof {
        lemma_default_indices(defaults@);
    }
    let start = match parse(spec) {
        Some(v) => v,
        None => defaults_list(defaults),
    };
    let ghost used = in_use(defaults@, spec@);
    assert(increasing(start@) && start@.to_set() == used);
    let ghost kept = used.filter(|k: usize| k < n);
    let mut v: Vec<usize> = Vec::new();
    let mut j: usize = 0;
    while j < start.len()
        invariant
            j <= start@.len(),
            n == defaults@.len(),
            increasing(start@),
            start@.to_set() == used,
            kept == used.filter(|k: usize| k < n),
            increasing(v@),
            forall|a: int, b: int| 0 <= a < v@.len() && j <= b < start@.len() ==> v@[a] < start@[b],
            forall|x: usize| #[trigger] v@.contains(x) <==> (start@.take(j as int).contains(x) && x < n),
        decreases start@.len() - j,
    {
        let x = start[j];
        let ghost before = v@;
        if x < n {
            v.push(x);
        }
        proof {
            assert(start@.take(j + 1) =~= start@.take(j as int).push(x));
            let t0 = start@.take(j as int);
            let t1 = start@.take(j + 1);
            assert forall|y: usize| #[trigger] v@.contains(y) <==> (t1.contains(y) && y < n) by {
                if y == x && x < n {
                    assert(v@[v@.len() - 1] == x);
                    assert(t1[j as int] == x);
                }
                if v@.contains(y) && y != x {
                    let k = choose|k: int| 0 <= k < v@.len() && v@[k] == y;
                    assert(before[k] == y);
                    assert(before.contains(y));
                    let k2 = choose|k2: int| 0 <= k2 < t0.len() && t0[k2] == y;
                    assert(t1[k2] == y);
                }
                if t1.contains(y) && y != x && y < n {
                    let k = choose|k: int| 0 <= k < t1.len() && t1[k] == y;
                    assert(t0[k] == y);
                    assert(t0.contains(y));
                    assert(before.contains(y));
                    let k2 = choose|k2: int| 0 <= k2 < before.len() && before[k2] == y;
                    assert(v@[k2] == y);
                }
            }
        }
        j = j + 1;
    }
    assert(start@.take(start@.len() as int) =~= start@);
    assert forall|x: usize| #[trigger] v@.to_set().contains(x) <==> kept.contains(x) by {
        if start@.contains(x) {
            assert(start@.to_set().contains(x));
        }
        if used.contains(x) {
            let k = choose|k: int| 0 <= k < start@.len() && start@[k] == x;
            assert(start@.contains(x));
        }
    }
    assert(v@.to_set() =~= kept);
    let mut p: usize = 0;
    while p < v.len() && v[p] != i
        invariant
            p <= v@.len(),
            forall|q: int| 0 <= q < p ==> v@[q] != i,
        decreases v@.len() - p,
    {
        p = p + 1;
    }
    let ghost w = v@;
    if p < v.len() {
        v.remove(p);
        proof {
            assert(v@ == w.remove(p as int));
            assert(kept.contains(i)) by {
                assert(w[p as int] == i);
            }
            assert forall|x: usize| #[trigger] v@.to_set().contains(x) <==> kept.remove(i).contains(x) by {
                if w.to_set().contains(x) && x != i {
                    let k = choose|k: int| 0 <= k < w.len() && w[k] == x;
                    if k < p {
                        assert(v@[k] == x);
                    } else {
                        assert(k != p);
                        assert(v@[k - 1] == x);
                    }
                }
                if v@.to_set().contains(x) {
                    let k = choose|k: int| 0 <= k < v@.len() && v@[k] == x;
                    if k < p {
                        assert(w[k] == x);
                        assert(w[k] < w[p as int]);
                    } else {
                        assert(w[k + 1] == x);
                        assert(w[p as int] < w[k + 1]);
                    }
                }
            }
            assert(v@.to_set() =~= kept.remove(i));
        }
    } else {
        assert(!kept.contains(i)) by {
            if kept.contains(i) {
                assert(w.to_set().contains(i));
                let k = choose|k: int| 0 <= k < w.len() && w[k] == i;
            }
        }
        insert_sorted(&mut v, i);
    }
    let ghost t = toggled(defaults@, spec@, i);
    assert(v@.to_set() == t);
    assert(increasing(v@));
    if same(&v, &d) {
        String::new()
    } else {
        proof {
            if t == default_indices(defaults@).to_set() {
                lemma_increasing_unique(v@, d@);
            }
            lemma_in_order(v@);
        }
        format(&v)
    }
}

/// Position of the first index at or past `n`, or the length.
pub open spec fn first_out(v: Seq<usize>, n: nat) -> nat
    decreases v.len(),
{
    if v.len() == 0 || v[0] >= n {
        0
    } else {
        1 + first_out(v.drop_first(), n)
    }
}

/// The text for a picked region past the last one.
pub open spec fn gone_message(bad: nat, n: nat) -> Seq<char> {
    "region "@ + decimal(bad) + " no longer exists (the sketch has "@ + decimal(n)
        + " regions); pick the regions again"@
}

/// The regions `spec` picks when the sketch has one region per entry of
/// `defaults`: the default ones, or the listed ones if they all exist.
pub open spec fn picked_spec(defaults: Seq<bool>, spec: Seq<char>) -> Result<Seq<usize>, Seq<char>> {
    match selection(spec) {
        None => Ok(default_indices(defaults)),
        Some(s) => {
            let v = in_order(s);
            let f = first_out(v, defaults.len());
            if v.len() == 0 {
                Err("no region selected; click a region of the sketch"@)
            } else if f < v.len() {
                Err(gone_message(v[f as int] as nat, defaults.len()))
            } else {
                Ok(v)
            }
        },
    }
}

/// The regions that `spec` picks, in increasing order, or why none can be.
pub fn picked(defaults: &[bool], spec: &str) -> (r: Result<Vec<usize>, RegenError>)
    ensures
        match (r, picked_spec(defaults@, spec@)) {
            (Ok(v), Ok(w)) => v@ == w,
            (Err(RegenError::Other(m)), Err(w)) => m@ == w,
            _ => false,
        },
{
    let n = defaults.len();
    match parse(spec) {
        None => Ok(defaults_list(defaults)),
        Some(sel) => {
            proof {
                lemma_in_order(sel@);
            }
            if sel.len() == 0 {
                return Err(RegenError::Other(owned("no region selected; click a region of the sketch")));
            }
            let mut k: usize = 0;
            assert(sel@.skip(0) =~= sel@);
            while k < sel.len() && sel[k] < n
                invariant
                    k <= sel@.len(),
                    n == defaults@.len(),
                    forall|q: int| 0 <= q < k ==> sel@[q] < n,
                    first_out(sel@, n as nat) == k + first_out(sel@.skip(k as int), n as nat),
                decreases sel@.len() - k,
            {
                assert(sel@.skip(k as int).drop_first() =~= sel@.skip(k + 1));
                k = k + 1;
            }
            if k < sel.len() {
                assert(first_out(sel@, n as nat) == k);
                let mut m = owned("region ");
                push_decimal(&mut m, sel[k] as u64);
                m.append(" no longer exists (the sketch has ");
                push_decimal(&mut m, n as u64);
                m.append(" regions); pick the regions again");
                return Err(RegenError::Other(m));
            }
            assert(sel@.skip(k as int).len() == 0);
            Ok(sel)
        },
    }
}

// ---------------------------------------------------------------- reading back what `format` writes

/// The digits of `n` are decimal digits and read back as `n`.
pub proof fn lemma_decimal_reads_back(n: nat)
    ensures
        decimal(n).len() >= 1,
        all_digit_chars(decimal(n)),
        digits_value(decimal(n)) == n,
    decreases n,
{
    if n < 10 {
        assert(decimal(n).drop_last() =~= Seq::<char>::empty());
        assert((digit_char(n) as int) == 48 + n);
        assert(digits_value(Seq::<char>::empty()) == 0);
        assert(decimal(n).last() == digit_char(n));
    } else {
        lemma_decimal_reads_back(n / 10);
        let d = decimal(n);
        assert((digit_char(n % 10) as int) == 48 + n % 10);
        assert(d.drop_last() =~= decimal(n / 10));
        assert(d.last() == digit_char(n % 10));
        assert((n / 10) * 10 + n % 10 == n) by (nonlinear_arith);
        assert(digits_value(d) == digits_value(decimal(n / 10)) * 10 + ((d.last() as int) - 48) as nat);
        assert forall|i: int| 0 <= i < d.len() implies is_digit_char(#[trigger] d[i]) by {
            if i < d.len() - 1 {
                assert(d[i] == decimal(n / 10)[i]);
            }
        }
    }
}

/// No digit separates indices or is white space.
pub proof fn lemma_digits_plain(d: Seq<char>, w: Split)
    requires
        all_digit_chars(d),
    ensures
        forall|i: int| 0 <= i < d.len() ==> !is_sep(#[trigger] d[i], w) && !is_white(d[i]) && d[i] != '+',
{
    assert forall|i: int| 0 <= i < d.len() implies !is_sep(#[trigger] d[i], w) && !is_white(d[i]) && d[i] != '+' by {
        assert(is_digit_char(d[i]));
    }
}

/// A run of digits has no white space to trim.
pub proof fn lemma_trim_digits(d: Seq<char>)
    requires
        all_digit_chars(d),
        d.len() >= 1,
    ensures
        trim(d) == d,
{
    lemma_digits_plain(d, Split::CommaSpace);
    assert(lead_white(d) == 0);
    assert(d.skip(0) =~= d);
    assert(trail_white(d) == 0);
    assert(d.take(d.len() as int) =~= d);
}

/// An index written in decimal reads back as itself.
pub proof fn lemma_parse_decimal(n: usize)
    ensures
        parse_index(trim(decimal(n as nat))) == Some(n),
{
    let d = decimal(n as nat);
    lemma_decimal_reads_back(n as nat);
    lemma_trim_digits(d);
    lemma_digits_plain(d, Split::CommaSpace);
    assert(d[0] != '+');
}

/// The first separator at or after `i` is at `k` when none lies between.
pub proof fn lemma_next_sep_at(t: Seq<char>, i: int, k: int, w: Split)
    requires
        0 <= i <= k <= t.len(),
        forall|j: int| i <= j < k ==> !is_sep(#[trigger] t[j], w),
        k == t.len() || is_sep(t[k], w),
    ensures
        next_sep(t, i, w) == k,
    decreases k - i,
{
    if i < k {
        lemma_next_sep_at(t, i + 1, k, w);
    }
}

/// Splitting `a + r` from inside `r` is splitting `r`.
pub proof fn lemma_pieces_shift(a: Seq<char>, r: Seq<char>, j: int, w: Split)
    requires
        0 <= j <= r.len(),
    ensures
        pieces_from(a + r, a.len() + j, w) == pieces_from(r, j, w),
    decreases r.len() - j,
{
    let t = a + r;
    let i = a.len() + j;
    lemma_next_sep(r, j, w);
    let k = next_sep(r, j, w);
    assert forall|q: int| i <= q < a.len() + k implies !is_sep(#[trigger] t[q], w) by {
        assert(t[q] == r[q - a.len()]);
    }
    if k < r.len() {
        assert(t[a.len() + k] == r[k]);
    }
    lemma_next_sep_at(t, i, a.len() + k, w);
    assert(t.subrange(i, a.len() + k) =~= r.subrange(j, k));
    if k < r.len() {
        lemma_pieces_shift(a, r, k + 1, w);
    } else {
        assert(t.subrange(i, t.len() as int) =~= r.subrange(j, r.len() as int));
    }
}

/// `joined` with a first index split off.
pub proof fn lemma_joined_first(x: usize, rest: Seq<usize>)
    requires
        rest.len() >= 1,
    ensures
        joined(seq![x] + rest) == decimal(x as nat) + seq![','] + joined(rest),
    decreases rest.len(),
{
    let v = seq![x] + rest;
    if rest.len() == 1 {
        assert(v.drop_last() =~= seq![x]);
        assert(joined(seq![x]) == decimal(x as nat));
    } else {
        lemma_joined_first(x, rest.drop_last());
        assert(v.drop_last() =~= seq![x] + rest.drop_last());
        assert(decimal(x as nat) + seq![','] + joined(rest.drop_last()) + seq![','] + decimal(rest.last() as nat)
            =~= decimal(x as nat) + seq![','] + (joined(rest.drop_last()) + seq![','] + decimal(
            rest.last() as nat,
        )));
    }
}

/// The indices written by `format` are the indices read back from the
/// pieces of the text.
pub proof fn lemma_pieces_of_joined(v: Seq<usize>)
    requires
        v.len() >= 1,
    ensures
        numbers_in(pieces_from(joined(v), 0, Split::CommaSpace)) == v,
    decreases v.len(),
{
    let d = decimal(v[0] as nat);
    lemma_decimal_reads_back(v[0] as nat);
    lemma_digits_plain(d, Split::CommaSpace);
    lemma_parse_decimal(v[0]);
    if v.len() == 1 {
        assert(joined(v) == d);
        lemma_next_sep_at(d, 0, d.len() as int, Split::CommaSpace);
        assert(d.subrange(0, d.len() as int) =~= d);
        assert(pieces_from(d, 0, Split::CommaSpace) == seq![d]);
        lemma_numbers_in_cons(d, Seq::empty());
        assert(seq![d] + Seq::<Seq<char>>::empty() =~= seq![d]);
        assert(seq![v[0]] + Seq::<usize>::empty() =~= v);
    } else {
        let rest = v.drop_first();
        assert(v =~= seq![v[0]] + rest);
        lemma_joined_first(v[0], rest);
        let a = d + seq![','];
        let j = joined(rest);
        let t = joined(v);
        assert(t =~= a + j);
        assert forall|q: int| 0 <= q < d.len() implies !is_sep(#[trigger] t[q], Split::CommaSpace) by {
            assert(t[q] == d[q]);
        }
        assert(t[d.len() as int] == ',');
        lemma_next_sep_at(t, 0, d.len() as int, Split::CommaSpace);
        assert(t.subrange(0, d.len() as int) =~= d);
        lemma_pieces_shift(a, j, 0, Split::CommaSpace);
        assert(pieces_from(t, 0, Split::CommaSpace) == seq![d] + pieces_from(j, 0, Split::CommaSpace));
        lemma_numbers_in_cons(d, pieces_from(j, 0, Split::CommaSpace));
        lemma_pieces_of_joined(rest);
    }
}

/// What `format` writes, `parse` reads back: no indices read as the
/// default regions, and indices in increasing order as themselves.
pub proof fn lemma_selection_of_joined(v: Seq<usize>)
    requires
        increasing(v),
    ensures
        selection(joined(v)) == if v.len() == 0 { None } else { Some(v.to_set()) },
{
    if v.len() == 0 {
        assert(joined(v) =~= Seq::<char>::empty());
        assert(trim(joined(v)).len() == 0);
    } else {
        let t = joined(v);
        lemma_joined_digits(v);
        lemma_trim_digits_or_commas(t);
        lemma_pieces_of_joined(v);
        reveal_strlit("all");
        assert(!eq_ignore_case(t, "all"@)) by {
            if t.len() == 3 {
                assert(ascii_lower(t[0]) != ascii_lower("all"@[0]));
            }
        }
    }
}

/// Every character of `joined(v)` is a digit or a comma, and it starts and
/// ends with a digit.
pub proof fn lemma_joined_digits(v: Seq<usize>)
    requires
        v.len() >= 1,
    ensures
        joined(v).len() >= 1,
        forall|i: int| 0 <= i < joined(v).len() ==> is_digit_char(#[trigger] joined(v)[i]) || joined(v)[i] == ',',
        is_digit_char(joined(v)[0]),
        is_digit_char(joined(v).last()),
    decreases v.len(),
{
    let d = decimal(v.last() as nat);
    lemma_decimal_reads_back(v.last() as nat);
    if v.len() == 1 {
    } else {
        lemma_joined_digits(v.drop_last());
        let p = joined(v.drop_last());
        let t = joined(v);
        assert(t =~= p + seq![','] + d);
        assert forall|i: int| 0 <= i < t.len() implies is_digit_char(#[trigger] t[i]) || t[i] == ',' by {
            if i < p.len() {
                assert(t[i] == p[i]);
            } else if i > p.len() {
                assert(t[i] == d[i - p.len() - 1]);
            }
        }
        assert(t[0] == p[0]);
        assert(t.last() == d.last());
    }
}

/// Text of digits and commas that starts and ends with a digit has no
/// white space to trim.
pub proof fn lemma_trim_digits_or_commas(t: Seq<char>)
    requires
        t.len() >= 1,
        is_digit_char(t[0]),
        is_digit_char(t.last()),
    ensures
        trim(t) == t,
{
    assert(lead_white(t) == 0);
    assert(t.skip(0) =~= t);
    assert(trail_white(t) == 0);
    assert(t.take(t.len() as int) =~= t);
}

/// The members of `t` below `n`, in increasing order.
pub open spec fn members_below(t: Set<usize>, n: nat) -> Seq<usize>
    decreases n,
{
    if n == 0 {
        Seq::empty()
    } else if t.contains((n - 1) as usize) {
        members_below(t, (n - 1) as nat).push((n - 1) as usize)
    } else {
        members_below(t, (n - 1) as nat)
    }
}

pub proof fn lemma_members_below(t: Set<usize>, n: nat)
    requires
        n <= usize::MAX + 1,
    ensures
        increasing(members_below(t, n)),
        forall|j: int| 0 <= j < members_below(t, n).len() ==> #[trigger] members_below(t, n)[j] < n,
        forall|k: usize| #[trigger] members_below(t, n).to_set().contains(k) <==> (t.contains(k) && k < n),
    decreases n,
{
    if n > 0 {
        let m = (n - 1) as nat;
        lemma_members_below(t, m);
        let p = members_below(t, m);
        if t.contains(m as usize) {
            Seq::lemma_push_to_set_commute(p, m as usize);
        }
    }
}

/// A set of indices below `n` has an increasing list, the one `in_order`
/// gives.
pub proof fn lemma_in_order_below(t: Set<usize>, n: nat)
    requires
        n <= usize::MAX + 1,
        forall|k: usize| t.contains(k) ==> k < n,
    ensures
        increasing(in_order(t)),
        in_order(t).to_set() == t,
        in_order(t).len() == 0 <==> t == Set::<usize>::empty(),
{
    lemma_members_below(t, n);
    let w = members_below(t, n);
    assert(w.to_set() =~= t);
    assert(increasing(w) && w.to_set() == t);
    let v = in_order(t);
    assert(increasing(v) && v.to_set() == t);
    if v.len() == 0 {
        assert(v.to_set() =~= Set::<usize>::empty());
    } else {
        assert(v.to_set().contains(v[0]));
    }
}

} // verus!
