//! Character-level helpers shared by the parsers and the feature editors.

use vstd::prelude::*;
use vstd::std_specs::iter::IteratorSpec;

verus! {

/// Compares two string slices, as `==` on `str` does.
pub fn str_eq(a: &str, b: &str) -> (r: bool)
    ensures
        r == (a@ == b@),
{
    let va = chars_of(a);
    let vb = chars_of(b);
    if va.len() != vb.len() {
        return false;
    }
    let mut i: usize = 0;
    while i < va.len()
        invariant
            i <= va@.len() == vb@.len(),
            va@ == a@,
            vb@ == b@,
            forall|j: int| 0 <= j < i ==> va@[j] == vb@[j],
        decreases va@.len() - i,
    {
        if va[i] != vb[i] {
            return false;
        }
        i = i + 1;
    }
    assert(va@ =~= vb@);
    true
}

/// Appends one character, as `String::push` does.
#[verifier::external_body]
pub fn push_char(s: &mut String, c: char)
    ensures
        final(s)@ == old(s)@.push(c),
{
    s.push(c)
}

/// The characters of `s`, in order.
pub fn chars_of(s: &str) -> (v: Vec<char>)
    ensures
        v@ == s@,
{
    broadcast use vstd::string::group_string_axioms;

    let mut v: Vec<char> = Vec::new();
    for c in it: s.chars()
        invariant
            it.seq() == s@,
            v@ == s@.take(it.index() as int),
    {
        v.push(c);
        assert(v@ =~= s@.take(it.index() as int + 1));
    }
    assert(v@ =~= s@);
    v
}

/// The characters `v[lo..hi]` as a new string.
pub fn string_of(v: &[char], lo: usize, hi: usize) -> (s: String)
    requires
        lo <= hi <= v@.len(),
    ensures
        s@ == v@.subrange(lo as int, hi as int),
{
    let mut s = String::new();
    let mut i = lo;
    while i < hi
        invariant
            lo <= i <= hi <= v@.len(),
            s@ == v@.subrange(lo as int, i as int),
        decreases hi - i,
    {
        push_char(&mut s, v[i]);
        assert(s@ =~= v@.subrange(lo as int, i as int + 1));
        i = i + 1;
    }
    s
}

/// A copy of `s` as an owned string.
pub fn owned(s: &str) -> (r: String)
    ensures
        r@ == s@,
{
    s.to_owned()
}

/// `a` sorts before `b`: character by character, a proper prefix first.
/// This is the order of `str` and `String`.
pub open spec fn text_lt(a: Seq<char>, b: Seq<char>) -> bool
    decreases a.len(),
{
    if b.len() == 0 {
        false
    } else if a.len() == 0 {
        true
    } else if a[0] != b[0] {
        (a[0] as int) < (b[0] as int)
    } else {
        text_lt(a.drop_first(), b.drop_first())
    }
}

pub proof fn lemma_text_lt_irreflexive(a: Seq<char>)
    ensures
        !text_lt(a, a),
    decreases a.len(),
{
    if a.len() > 0 {
        lemma_text_lt_irreflexive(a.drop_first());
    }
}

pub proof fn lemma_text_lt_total(a: Seq<char>, b: Seq<char>)
    ensures
        a != b ==> text_lt(a, b) || text_lt(b, a),
        !(text_lt(a, b) && text_lt(b, a)),
    decreases a.len(),
{
    if a.len() > 0 && b.len() > 0 && a[0] == b[0] {
        lemma_text_lt_total(a.drop_first(), b.drop_first());
        if a != b {
            assert(a =~= seq![a[0]] + a.drop_first());
            assert(b =~= seq![b[0]] + b.drop_first());
        }
    } else if a.len() == 0 && b.len() == 0 {
        assert(a =~= b);
    } else if a.len() > 0 && b.len() > 0 {
    }
}

pub proof fn lemma_text_lt_transitive(a: Seq<char>, b: Seq<char>, c: Seq<char>)
    requires
        text_lt(a, b),
        text_lt(b, c),
    ensures
        text_lt(a, c),
    decreases a.len(),
{
    if a.len() > 0 && a[0] == b[0] && b[0] == c[0] {
        lemma_text_lt_transitive(a.drop_first(), b.drop_first(), c.drop_first());
    }
}

/// Whether `a` sorts before `b` (see `text_lt`).
pub fn text_less(a: &str, b: &str) -> (r: bool)
    ensures
        r == text_lt(a@, b@),
{
    let va = chars_of(a);
    let vb = chars_of(b);
    let mut i: usize = 0;
    assert(va@.skip(0) =~= va@);
    assert(vb@.skip(0) =~= vb@);
    loop
        invariant
            va@ == a@,
            vb@ == b@,
            i <= va@.len(),
            i <= vb@.len(),
            text_lt(va@.skip(i as int), vb@.skip(i as int)) == text_lt(a@, b@),
        decreases va@.len() - i,
    {
        if i == vb.len() {
            return false;
        }
        if i == va.len() {
            return true;
        }
        assert(va@.skip(i as int).drop_first() =~= va@.skip(i + 1));
        assert(vb@.skip(i as int).drop_first() =~= vb@.skip(i + 1));
        if va[i] != vb[i] {
            return va[i] < vb[i];
        }
        i = i + 1;
    }
}

/// The decimal digit `d` as a character.
pub open spec fn digit_char(d: nat) -> char {
    ((48 + d) as u8) as char
}

/// `n` written in decimal, as `to_string` writes an integer.
pub open spec fn decimal(n: nat) -> Seq<char>
    decreases n,
{
    if n < 10 {
        seq![digit_char(n)]
    } else {
        decimal(n / 10).push(digit_char(n % 10))
    }
}

/// Appends `n` written in decimal.
pub fn push_decimal(s: &mut String, n: u64)
    ensures
        final(s)@ == old(s)@ + decimal(n as nat),
    decreases n,
{
    if n >= 10 {
        push_decimal(s, n / 10);
    }
    let d = (n % 10) as u8;
    push_char(s, (48u8 + d) as char);
    assert(final(s)@ =~= old(s)@ + decimal(n as nat));
}

/// `a` followed by `b`.
pub fn concat(a: &str, b: &str) -> (r: String)
    ensures
        r@ == a@ + b@,
{
    let mut r = owned(a);
    r.append(b);
    r
}

/// `c` with an ASCII capital letter made small.
pub open spec fn ascii_lower(c: char) -> char {
    if 'A' <= c <= 'Z' {
        (((c as int) + 32) as u8) as char
    } else {
        c
    }
}

/// `c` with an ASCII small letter made capital.
pub open spec fn ascii_upper(c: char) -> char {
    if 'a' <= c <= 'z' {
        (((c as int) - 32) as u8) as char
    } else {
        c
    }
}

/// `t` with its ASCII small letters made capital, as `to_ascii_uppercase`.
pub open spec fn upper_text(t: Seq<char>) -> Seq<char> {
    t.map_values(|c: char| ascii_upper(c))
}

pub fn upper(c: char) -> (r: char)
    ensures
        r == ascii_upper(c),
{
    if 'a' <= c && c <= 'z' {
        ((c as u8) - 32u8) as char
    } else {
        c
    }
}

/// Equal after making ASCII letters small, as `eq_ignore_ascii_case`.
pub open spec fn eq_ignore_case(a: Seq<char>, b: Seq<char>) -> bool {
    a.len() == b.len() && forall|i: int| 0 <= i < a.len() ==> ascii_lower(#[trigger] a[i]) == ascii_lower(b[i])
}

pub fn lower(c: char) -> (r: char)
    ensures
        r == ascii_lower(c),
{
    if 'A' <= c && c <= 'Z' {
        ((c as u8) + 32u8) as char
    } else {
        c
    }
}

/// Whether `a[a_lo..]` and `b[b_lo..]` are equal ignoring ASCII case.
pub fn eq_ignore_case_from(a: &Vec<char>, a_lo: usize, b: &Vec<char>, b_lo: usize) -> (r: bool)
    requires
        a_lo <= a@.len(),
        b_lo <= b@.len(),
    ensures
        r == eq_ignore_case(a@.skip(a_lo as int), b@.skip(b_lo as int)),
{
    if a.len() - a_lo != b.len() - b_lo {
        return false;
    }
    let n = a.len() - a_lo;
    let mut i: usize = 0;
    while i < n
        invariant
            i <= n,
            a_lo <= a@.len(),
            b_lo <= b@.len(),
            n == a@.len() - a_lo,
            n == b@.len() - b_lo,
            a@.len() <= usize::MAX,
            b@.len() <= usize::MAX,
            forall|j: int| 0 <= j < i ==> ascii_lower(#[trigger] a@.skip(a_lo as int)[j]) == ascii_lower(
                b@.skip(b_lo as int)[j],
            ),
        decreases n - i,
    {
        if lower(a[a_lo + i]) != lower(b[b_lo + i]) {
            assert(a@.skip(a_lo as int)[i as int] == a@[a_lo + i]);
            assert(b@.skip(b_lo as int)[i as int] == b@[b_lo + i]);
            return false;
        }
        i = i + 1;
    }
    true
}

/// `s` without the characters `c` at its start, as `trim_start_matches`.
pub open spec fn trim_start(s: Seq<char>, c: char) -> Seq<char>
    decreases s.len(),
{
    if s.len() > 0 && s[0] == c {
        trim_start(s.drop_first(), c)
    } else {
        s
    }
}

/// How many characters `c` stand at the start of `v`.
pub fn count_leading(v: &Vec<char>, c: char) -> (k: usize)
    ensures
        k <= v@.len(),
        v@.skip(k as int) == trim_start(v@, c),
{
    let mut k: usize = 0;
    assert(v@.skip(0) =~= v@);
    while k < v.len() && v[k] == c
        invariant
            k <= v@.len(),
            trim_start(v@.skip(k as int), c) == trim_start(v@, c),
        decreases v@.len() - k,
    {
        assert(v@.skip(k as int).drop_first() =~= v@.skip(k + 1));
        k = k + 1;
    }
    k
}

/// White space as Unicode defines it, the set `char::is_whitespace` tests.
pub open spec fn is_white(c: char) -> bool {
    ||| '\t' <= c <= '\r'
    ||| c == ' '
    ||| c == '\u{85}'
    ||| c == '\u{A0}'
    ||| c == '\u{1680}'
    ||| '\u{2000}' <= c <= '\u{200A}'
    ||| c == '\u{2028}'
    ||| c == '\u{2029}'
    ||| c == '\u{202F}'
    ||| c == '\u{205F}'
    ||| c == '\u{3000}'
}

pub fn white(c: char) -> (r: bool)
    ensures
        r == is_white(c),
{
    ('\t' <= c && c <= '\r') || c == ' ' || c == '\u{85}' || c == '\u{A0}' || c == '\u{1680}' || ('\u{2000}'
        <= c && c <= '\u{200A}') || c == '\u{2028}' || c == '\u{2029}' || c == '\u{202F}' || c == '\u{205F}'
        || c == '\u{3000}'
}

/// The number of white space characters at the start of `s`.
pub open spec fn lead_white(s: Seq<char>) -> nat
    decreases s.len(),
{
    if s.len() > 0 && is_white(s[0]) {
        1 + lead_white(s.drop_first())
    } else {
        0
    }
}

/// The number of white space characters at the end of `s`.
pub open spec fn trail_white(s: Seq<char>) -> nat
    decreases s.len(),
{
    if s.len() > 0 && is_white(s.last()) {
        1 + trail_white(s.drop_last())
    } else {
        0
    }
}

/// `s` without white space at either end, as `str::trim`.
pub open spec fn trim(s: Seq<char>) -> Seq<char> {
    let a = lead_white(s) as int;
    let t = s.skip(a);
    t.take(t.len() - trail_white(t))
}

pub proof fn lemma_lead_white(s: Seq<char>)
    ensures
        lead_white(s) <= s.len(),
        forall|i: int| 0 <= i < lead_white(s) ==> is_white(#[trigger] s[i]),
        lead_white(s) < s.len() ==> !is_white(s[lead_white(s) as int]),
    decreases s.len(),
{
    if s.len() > 0 && is_white(s[0]) {
        lemma_lead_white(s.drop_first());
        assert forall|i: int| 0 <= i < lead_white(s) implies is_white(#[trigger] s[i]) by {
            if i > 0 {
                assert(s[i] == s.drop_first()[i - 1]);
            }
        }
    }
}

pub proof fn lemma_trail_white(s: Seq<char>)
    ensures
        trail_white(s) <= s.len(),
        forall|i: int| s.len() - trail_white(s) <= i < s.len() ==> is_white(#[trigger] s[i]),
        trail_white(s) < s.len() ==> !is_white(s[s.len() - trail_white(s) - 1]),
    decreases s.len(),
{
    if s.len() > 0 && is_white(s.last()) {
        lemma_trail_white(s.drop_last());
        assert forall|i: int| s.len() - trail_white(s) <= i < s.len() implies is_white(#[trigger] s[i]) by {
            if i < s.len() - 1 {
                assert(s[i] == s.drop_last()[i]);
            }
        }
    }
}

/// The bounds `[lo, hi)` of `v[from..to]` without white space at its ends.
pub fn trim_bounds(v: &Vec<char>, from: usize, to: usize) -> (r: (usize, usize))
    requires
        from <= to <= v@.len(),
    ensures
        from <= r.0 <= r.1 <= to,
        v@.subrange(r.0 as int, r.1 as int) == trim(v@.subrange(from as int, to as int)),
{
    let ghost s = v@.subrange(from as int, to as int);
    let mut lo = from;
    while lo < to && white(v[lo])
        invariant
            from <= lo <= to <= v@.len(),
            s == v@.subrange(from as int, to as int),
            lead_white(v@.subrange(lo as int, to as int)) + (lo - from) == lead_white(s),
        decreases to - lo,
    {
        assert(v@.subrange(lo as int, to as int).drop_first() =~= v@.subrange(lo + 1, to as int));
        lo = lo + 1;
    }
    let ghost t = v@.subrange(lo as int, to as int);
    assert(s.skip(lead_white(s) as int) =~= t);
    let mut hi = to;
    while hi > lo && white(v[hi - 1])
        invariant
            from <= lo <= hi <= to <= v@.len(),
            t == v@.subrange(lo as int, to as int),
            trail_white(v@.subrange(lo as int, hi as int)) + (to - hi) == trail_white(t),
        decreases hi - lo,
    {
        assert(v@.subrange(lo as int, hi as int).drop_last() =~= v@.subrange(lo as int, hi - 1));
        hi = hi - 1;
    }
    assert(t.take(t.len() - trail_white(t)) =~= v@.subrange(lo as int, hi as int));
    (lo, hi)
}

/// `s` without the characters `c` at its end, as `trim_end_matches`.
pub open spec fn trim_end(s: Seq<char>, c: char) -> Seq<char>
    decreases s.len(),
{
    if s.len() > 0 && s.last() == c {
        trim_end(s.drop_last(), c)
    } else {
        s
    }
}

/// The length of `v[..to]` once the characters `c` at its end are dropped.
pub fn count_trailing(v: &Vec<char>, to: usize, c: char) -> (k: usize)
    requires
        to <= v@.len(),
    ensures
        k <= to,
        v@.take(k as int) == trim_end(v@.take(to as int), c),
{
    let mut k = to;
    while k > 0 && v[k - 1] == c
        invariant
            k <= to <= v@.len(),
            trim_end(v@.take(k as int), c) == trim_end(v@.take(to as int), c),
        decreases k,
    {
        assert(v@.take(k as int).drop_last() =~= v@.take(k - 1));
        k = k - 1;
    }
    k
}

// ---------------------------------------------------------------- floating point numbers as text

/// A decimal digit.
pub open spec fn digit(c: char) -> bool {
    '0' <= c <= '9'
}

/// Decimal digits only (none at all counts too).
pub open spec fn digits(s: Seq<char>) -> bool {
    forall|i: int| 0 <= i < s.len() ==> digit(#[trigger] s[i])
}

/// The position of the first `c` or `d` in `s`, or its length.
pub open spec fn first_of(s: Seq<char>, c: char, d: char) -> int
    decreases s.len(),
{
    if s.len() == 0 || s[0] == c || s[0] == d {
        0
    } else {
        1 + first_of(s.drop_first(), c, d)
    }
}

/// Digits with at most one point among them, and at least one digit.
pub open spec fn mantissa_text(m: Seq<char>) -> bool {
    let p = first_of(m, '.', '.');
    if p >= m.len() {
        m.len() > 0 && digits(m)
    } else {
        digits(m.take(p)) && digits(m.skip(p + 1)) && m.len() > 1
    }
}

/// An optional sign, then at least one digit.
pub open spec fn exponent_text(x: Seq<char>) -> bool {
    let d = if x.len() > 0 && (x[0] == '+' || x[0] == '-') { x.drop_first() } else { x };
    d.len() > 0 && digits(d)
}

/// A decimal number: a mantissa, then optionally `e` or `E` and an exponent.
pub open spec fn number_text(s: Seq<char>) -> bool {
    let k = first_of(s, 'e', 'E');
    if k >= s.len() {
        mantissa_text(s)
    } else {
        mantissa_text(s.take(k)) && exponent_text(s.skip(k + 1))
    }
}

/// The text that `f64::from_str` accepts, as its documentation gives the
/// grammar: an optional sign, then `inf`, `infinity` or `nan` in any case,
/// or a decimal number.
pub open spec fn float_text(s: Seq<char>) -> bool {
    let b = if s.len() > 0 && (s[0] == '+' || s[0] == '-') { s.drop_first() } else { s };
    ||| eq_ignore_case(b, seq!['i', 'n', 'f'])
    ||| eq_ignore_case(b, seq!['i', 'n', 'f', 'i', 'n', 'i', 't', 'y'])
    ||| eq_ignore_case(b, seq!['n', 'a', 'n'])
    ||| number_text(b)
}

/// The message of `f64::from_str` for text it refuses.
pub open spec fn float_error(s: Seq<char>) -> Seq<char> {
    if s.len() == 0 {
        "cannot parse float from empty string"@
    } else {
        "invalid float literal"@
    }
}

fn all_digits(v: &Vec<char>, lo: usize, hi: usize) -> (r: bool)
    requires
        lo <= hi <= v@.len(),
    ensures
        r == digits(v@.subrange(lo as int, hi as int)),
{
    let mut k = lo;
    while k < hi
        invariant
            lo <= k <= hi <= v@.len(),
            forall|j: int| lo <= j < k ==> digit(#[trigger] v@[j]),
        decreases hi - k,
    {
        if !('0' <= v[k] && v[k] <= '9') {
            assert(!digit(v@.subrange(lo as int, hi as int)[k - lo]));
            return false;
        }
        k = k + 1;
    }
    assert forall|i: int| 0 <= i < hi - lo implies digit(#[trigger] v@.subrange(lo as int, hi as int)[i]) by {
        assert(v@.subrange(lo as int, hi as int)[i] == v@[lo + i]);
    }
    true
}

fn find_either(v: &Vec<char>, lo: usize, hi: usize, c: char, d: char) -> (k: usize)
    requires
        lo <= hi <= v@.len(),
    ensures
        lo <= k <= hi,
        k - lo == first_of(v@.subrange(lo as int, hi as int), c, d),
{
    let mut k = lo;
    while k < hi && v[k] != c && v[k] != d
        invariant
            lo <= k <= hi <= v@.len(),
            first_of(v@.subrange(lo as int, hi as int), c, d) == (k - lo) + first_of(v@.subrange(k as int, hi as int), c, d),
        decreases hi - k,
    {
        assert(v@.subrange(k as int, hi as int).drop_first() =~= v@.subrange(k + 1, hi as int));
        k = k + 1;
    }
    k
}

fn mantissa_ok(v: &Vec<char>, lo: usize, hi: usize) -> (r: bool)
    requires
        lo <= hi <= v@.len(),
    ensures
        r == mantissa_text(v@.subrange(lo as int, hi as int)),
{
    let ghost m = v@.subrange(lo as int, hi as int);
    let p = find_either(v, lo, hi, '.', '.');
    if p >= hi {
        hi > lo && all_digits(v, lo, hi)
    } else {
        assert(m.take(p - lo) =~= v@.subrange(lo as int, p as int));
        assert(m.skip(p - lo + 1) =~= v@.subrange(p + 1, hi as int));
        all_digits(v, lo, p) && all_digits(v, p + 1, hi) && hi - lo > 1
    }
}

fn number_ok(v: &Vec<char>, lo: usize, hi: usize) -> (r: bool)
    requires
        lo <= hi <= v@.len(),
    ensures
        r == number_text(v@.subrange(lo as int, hi as int)),
{
    let ghost s = v@.subrange(lo as int, hi as int);
    let k = find_either(v, lo, hi, 'e', 'E');
    if k >= hi {
        return mantissa_ok(v, lo, hi);
    }
    assert(s.take(k - lo) =~= v@.subrange(lo as int, k as int));
    let ghost x = s.skip(k - lo + 1);
    assert(x =~= v@.subrange(k + 1, hi as int));
    let mut d = k + 1;
    if d < hi && (v[d] == '+' || v[d] == '-') {
        d = d + 1;
        assert(x.drop_first() =~= v@.subrange(d as int, hi as int));
    }
    mantissa_ok(v, lo, k) && hi > d && all_digits(v, d, hi)
}

/// Whether `v[lo..hi]` equals `w`, ignoring ASCII case.
fn same_letters(v: &Vec<char>, lo: usize, hi: usize, w: &Vec<char>) -> (r: bool)
    requires
        lo <= hi <= v@.len(),
    ensures
        r == eq_ignore_case(v@.subrange(lo as int, hi as int), w@),
{
    if hi - lo != w.len() {
        return false;
    }
    let mut k: usize = 0;
    while k < w.len()
        invariant
            hi - lo == w@.len(),
            lo <= hi <= v@.len(),
            k <= w@.len(),
            forall|j: int| 0 <= j < k ==> ascii_lower(#[trigger] v@.subrange(lo as int, hi as int)[j]) == ascii_lower(w@[j]),
        decreases w@.len() - k,
    {
        assert(v@.subrange(lo as int, hi as int)[k as int] == v@[lo + k]);
        if lower(v[lo + k]) != lower(w[k]) {
            return false;
        }
        k = k + 1;
    }
    true
}

/// Whether `f64::from_str` accepts `s`, by the grammar `float_text`.
pub fn float_ok(s: &str) -> (r: bool)
    ensures
        r == float_text(s@),
{
    let v = chars_of(s);
    let n = v.len();
    let mut lo: usize = 0;
    if n > 0 && (v[0] == '+' || v[0] == '-') {
        lo = 1;
    }
    proof {
        let b = if s@.len() > 0 && (s@[0] == '+' || s@[0] == '-') { s@.drop_first() } else { s@ };
        assert(b =~= v@.subrange(lo as int, n as int));
    }
    let inf = vec!['i', 'n', 'f'];
    let infinity = vec!['i', 'n', 'f', 'i', 'n', 'i', 't', 'y'];
    let nan = vec!['n', 'a', 'n'];
    assert(inf@ == seq!['i', 'n', 'f']);
    assert(infinity@ == seq!['i', 'n', 'f', 'i', 'n', 'i', 't', 'y']);
    assert(nan@ == seq!['n', 'a', 'n']);
    same_letters(&v, lo, n, &inf) || same_letters(&v, lo, n, &infinity) || same_letters(&v, lo, n, &nan)
        || number_ok(&v, lo, n)
}

/// Text decoded from bytes the way `String::from_utf8_lossy` does.
pub uninterp spec fn lossy_text(b: Seq<u8>) -> Seq<char>;

/// Decodes bytes with `String::from_utf8_lossy`. Valid UTF-8 decodes to the
/// text it encodes; how other bytes become U+FFFD is left unsaid here.
#[verifier::external_body]
pub fn text_from_bytes(b: &[u8]) -> (s: String)
    ensures
        s@ == lossy_text(b@),
        vstd::utf8::valid_utf8(b@) ==> s@ == vstd::utf8::decode_utf8(b@),
{
    String::from_utf8_lossy(b).into_owned()
}

} // verus!
