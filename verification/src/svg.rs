//! SVG path data as text: the commands of a path `d` and the numbers that
//! follow each. Drawing the path is floating point work for the caller.

use vstd::prelude::*;
use crate::text::{chars_of, float_ok, float_text, string_of};

verus! {

pub open spec fn is_digit(c: char) -> bool {
    '0' <= c <= '9'
}

/// A character that starts a number: a digit, a point or a sign.
pub open spec fn starts_number(c: char) -> bool {
    is_digit(c) || c == '.' || c == '-' || c == '+'
}

/// Where a number that runs on from `i` ends, before `hi`: digits, one
/// point (`dot` says whether it was seen), and `e` or `E` with an optional
/// sign where something follows it.
pub open spec fn number_end(s: Seq<char>, i: int, hi: int, dot: bool) -> int
    decreases hi - i,
{
    if i < 0 || i >= hi {
        i
    } else if is_digit(s[i]) {
        number_end(s, i + 1, hi, dot)
    } else if s[i] == '.' && !dot {
        number_end(s, i + 1, hi, true)
    } else if (s[i] == 'e' || s[i] == 'E') && i + 1 < hi {
        let j = if s[i + 1] == '-' || s[i + 1] == '+' { i + 2 } else { i + 1 };
        number_end(s, j, hi, dot)
    } else {
        i
    }
}

/// The number texts in `s[i..hi]` that read as floating point numbers, in
/// order; a stretch that looks like a number but does not read is skipped.
pub open spec fn number_texts_in(s: Seq<char>, i: int, hi: int) -> Seq<Seq<char>>
    decreases hi - i,
{
    if i < 0 || i >= hi {
        Seq::empty()
    } else if starts_number(s[i]) {
        let e = number_end(s, i + 1, hi, s[i] == '.');
        if e <= i || e > hi {
            Seq::empty()
        } else {
            let t = s.subrange(i, e);
            (if float_text(t) { seq![t] } else { Seq::empty() }) + number_texts_in(s, e, hi)
        }
    } else {
        number_texts_in(s, i + 1, hi)
    }
}

proof fn lemma_number_end(s: Seq<char>, i: int, hi: int, dot: bool)
    requires
        0 <= i <= hi <= s.len(),
    ensures
        i <= number_end(s, i, hi, dot) <= hi,
    decreases hi - i,
{
    if i < hi {
        if is_digit(s[i]) {
            lemma_number_end(s, i + 1, hi, dot);
        } else if s[i] == '.' && !dot {
            lemma_number_end(s, i + 1, hi, true);
        } else if (s[i] == 'e' || s[i] == 'E') && i + 1 < hi {
            let j = if s[i + 1] == '-' || s[i + 1] == '+' { i + 2 } else { i + 1 };
            lemma_number_end(s, j, hi, dot);
        }
    }
}

/// The end of the number running on from `i`, as `number_end`.
fn scan_number(v: &Vec<char>, i: usize, hi: usize, dot: bool) -> (e: usize)
    requires
        i <= hi <= v@.len(),
    ensures
        e as int == number_end(v@, i as int, hi as int, dot),
{
    let mut k = i;
    let mut seen = dot;
    while k < hi
        invariant
            i <= k <= hi <= v@.len(),
            number_end(v@, k as int, hi as int, seen) == number_end(v@, i as int, hi as int, dot),
        decreases hi - k,
    {
        let c = v[k];
        if '0' <= c && c <= '9' {
            k = k + 1;
        } else if c == '.' && !seen {
            seen = true;
            k = k + 1;
        } else if (c == 'e' || c == 'E') && k + 1 < hi {
            if v[k + 1] == '-' || v[k + 1] == '+' {
                k = k + 2;
            } else {
                k = k + 1;
            }
        } else {
            assert(number_end(v@, k as int, hi as int, seen) == k as int);
            return k;
        }
    }
    k
}

/// The number texts of `v[lo..hi]`, as `number_texts_in`.
fn numbers_between(v: &Vec<char>, lo: usize, hi: usize) -> (out: Vec<String>)
    requires
        lo <= hi <= v@.len(),
    ensures
        out@.map_values(|t: String| t@) == number_texts_in(v@, lo as int, hi as int),
{
    let mut out: Vec<String> = Vec::new();
    let mut i = lo;
    while i < hi
        invariant
            lo <= i <= hi <= v@.len(),
            out@.map_values(|t: String| t@) + number_texts_in(v@, i as int, hi as int) == number_texts_in(
                v@,
                lo as int,
                hi as int,
            ),
        decreases hi - i,
    {
        let c = v[i];
        if ('0' <= c && c <= '9') || c == '.' || c == '-' || c == '+' {
            let e = scan_number(v, i + 1, hi, c == '.');
            proof {
                lemma_number_end(v@, i + 1, hi as int, c == '.');
            }
            let t = string_of(v.as_slice(), i, e);
            let ghost before = out@.map_values(|t: String| t@);
            let ghost rest = number_texts_in(v@, e as int, hi as int);
            if float_ok(t.as_str()) {
                out.push(t);
                assert(out@.map_values(|t: String| t@) =~= before.push(v@.subrange(i as int, e as int)));
                assert(before.push(v@.subrange(i as int, e as int)) + rest =~= before + (seq![v@.subrange(i as int, e as int)] + rest));
            } else {
                assert(Seq::<Seq<char>>::empty() + rest =~= rest);
            }
            i = e;
        } else {
            i = i + 1;
        }
    }
    assert(out@.map_values(|t: String| t@) + Seq::<Seq<char>>::empty() =~= out@.map_values(|t: String| t@));
    out
}

/// The numbers of an attribute or of path data, as text: each stretch
/// that looks like a number and reads as a floating point number, in order.
pub fn number_texts(s: &str) -> (out: Vec<String>)
    ensures
        out@.map_values(|t: String| t@) == number_texts_in(s@, 0, s@.len() as int),
{
    let v = chars_of(s);
    numbers_between(&v, 0, v.len())
}

/// A letter that starts a path command: any ASCII letter but the
/// exponent marks `e` and `E`.
pub open spec fn is_command(c: char) -> bool {
    (('a' <= c <= 'z') || ('A' <= c <= 'Z')) && c != 'e' && c != 'E'
}

/// The first command letter at or after `i`, or the end.
pub open spec fn next_command(s: Seq<char>, i: int) -> int
    decreases s.len() - i,
{
    if i < 0 || i >= s.len() {
        s.len() as int
    } else if is_command(s[i]) {
        i
    } else {
        next_command(s, i + 1)
    }
}

proof fn lemma_next_command(s: Seq<char>, i: int)
    requires
        0 <= i <= s.len(),
    ensures
        i <= next_command(s, i) <= s.len(),
        next_command(s, i) < s.len() ==> is_command(s[next_command(s, i)]),
    decreases s.len() - i,
{
    if i < s.len() && !is_command(s[i]) {
        lemma_next_command(s, i + 1);
    }
}

/// The commands from the command letter at `i` on, each with the number
/// texts up to the next command letter.
pub open spec fn commands_from(s: Seq<char>, i: int) -> Seq<(char, Seq<Seq<char>>)>
    decreases s.len() - i,
{
    if i < 0 || i >= s.len() {
        Seq::empty()
    } else {
        let j = next_command(s, i + 1);
        if j <= i || j > s.len() {
            Seq::empty()
        } else {
            seq![(s[i], number_texts_in(s, i + 1, j))] + commands_from(s, j)
        }
    }
}

/// The commands of path data `d`; text before the first command letter is
/// not part of any.
pub open spec fn path_commands_of(d: Seq<char>) -> Seq<(char, Seq<Seq<char>>)> {
    commands_from(d, next_command(d, 0))
}

pub open spec fn command_view(c: (char, Vec<String>)) -> (char, Seq<Seq<char>>) {
    (c.0, c.1@.map_values(|t: String| t@))
}

/// Splits path data into its commands, each letter with the numbers after
/// it, as text.
pub fn path_commands(d: &str) -> (out: Vec<(char, Vec<String>)>)
    ensures
        out@.map_values(|c: (char, Vec<String>)| command_view(c)) == path_commands_of(d@),
{
    let v = chars_of(d);
    let n = v.len();
    let mut i: usize = 0;
    while i < n && !((('a' <= v[i] && v[i] <= 'z') || ('A' <= v[i] && v[i] <= 'Z')) && v[i] != 'e' && v[i] != 'E')
        invariant
            i <= n == v@.len(),
            next_command(v@, i as int) == next_command(v@, 0),
        decreases n - i,
    {
        i = i + 1;
    }
    let mut out: Vec<(char, Vec<String>)> = Vec::new();
    while i < n
        invariant
            i <= n == v@.len(),
            v@ == d@,
            i < n ==> is_command(v@[i as int]),
            out@.map_values(|c: (char, Vec<String>)| command_view(c)) + commands_from(v@, i as int)
                == path_commands_of(d@),
        decreases n - i,
    {
        let mut j = i + 1;
        while j < n && !((('a' <= v[j] && v[j] <= 'z') || ('A' <= v[j] && v[j] <= 'Z')) && v[j] != 'e' && v[j] != 'E')
            invariant
                i < j <= n == v@.len(),
                next_command(v@, j as int) == next_command(v@, i + 1),
            decreases n - j,
        {
            j = j + 1;
        }
        let nums = numbers_between(&v, i + 1, j);
        let ghost before = out@.map_values(|c: (char, Vec<String>)| command_view(c));
        let ghost rest = commands_from(v@, j as int);
        let item = (v[i], nums);
        out.push(item);
        proof {
            assert(out@.map_values(|c: (char, Vec<String>)| command_view(c)) =~= before.push(
                (v@[i as int], number_texts_in(v@, i + 1, j as int)),
            ));
            assert(before.push((v@[i as int], number_texts_in(v@, i + 1, j as int))) + rest =~= before + (seq![
                (v@[i as int], number_texts_in(v@, i + 1, j as int)),
            ] + rest));
        }
        i = j;
    }
    assert(out@.map_values(|c: (char, Vec<String>)| command_view(c)) + Seq::<(char, Seq<Seq<char>>)>::empty()
        =~= out@.map_values(|c: (char, Vec<String>)| command_view(c)));
    out
}

} // verus!
