//! Built-in features: their parameters, defaults and names, and how their
//! references to other features follow the history. Each feature is plain
//! data that an editor changes through `params` and `set_param`; building
//! its geometry is the modelling kernel's work.

pub mod aircraft;
pub mod casting;
pub mod density;
pub mod emboss;
pub mod extrude;
pub mod hole;
pub mod hot_spots;
pub mod lattice;
pub mod loft;
pub mod pending;
pub mod primitives;
pub mod revolve;
pub mod sketch;
pub mod solid_extra;
pub mod surface_pattern;
pub mod sweep;
pub mod template;
pub mod transform;

use vstd::prelude::*;
use crate::param::names_of;
use crate::region_select::{lemma_numbers_in_cons, next_sep, numbers_in, parse_index_at, pieces_from, Split};
use crate::document::{renumber, renumbered, Renumber};
use crate::text::{chars_of, decimal, push_decimal, trim_bounds, white};

verus! {

/// Feature type ids that produce bodies, for body references.
pub open spec fn body_type_list() -> Seq<Seq<char>> {
    seq![
        "extrude"@,
        "revolve"@,
        "sweep"@,
        "loft"@,
        "box"@,
        "cylinder"@,
        "sphere"@,
        "torus"@,
        "mirror"@,
        "rect_pattern"@,
        "circ_pattern"@,
        "move"@,
        "scale"@,
        "fillet"@,
        "chamfer"@,
        "shell"@,
        "combine"@,
        "hole"@,
    ]
}

pub fn body_types() -> (v: Vec<&'static str>)
    ensures
        names_of(v@) == body_type_list(),
{
    let v = vec![
        "extrude",
        "revolve",
        "sweep",
        "loft",
        "box",
        "cylinder",
        "sphere",
        "torus",
        "mirror",
        "rect_pattern",
        "circ_pattern",
        "move",
        "scale",
        "fillet",
        "chamfer",
        "shell",
        "combine",
        "hole",
    ];
    assert(names_of(v@) =~= body_type_list());
    v
}

/// Feature type ids that define an axis, for axis references. No built-in
/// feature writes an axis into its output, so the list is empty.
pub open spec fn axis_type_list() -> Seq<Seq<char>> {
    Seq::empty()
}

pub fn axis_types() -> (v: Vec<&'static str>)
    ensures
        names_of(v@) == axis_type_list(),
{
    let v: Vec<&'static str> = Vec::new();
    assert(names_of(v@) =~= axis_type_list());
    v
}

/// Feature type ids that define a plane.
pub open spec fn plane_type_list() -> Seq<Seq<char>> {
    seq!["sketch"@, "offset_plane"@, "angle_plane"@, "plane_3pt"@, "midplane"@]
}

pub fn plane_types() -> (v: Vec<&'static str>)
    ensures
        names_of(v@) == plane_type_list(),
{
    let v = vec!["sketch", "offset_plane", "angle_plane", "plane_3pt", "midplane"];
    assert(names_of(v@) =~= plane_type_list());
    v
}

/// The feature indices a list such as "0, 2, 5" names: the pieces between
/// commas and white space that read as an index, in order.
pub open spec fn index_list(s: Seq<char>) -> Seq<usize> {
    numbers_in(pieces_from(s, 0, Split::CommaWhite))
}

/// Reads a list such as "0, 2 5" into feature indices; pieces that are no
/// index are skipped.
pub fn parse_index_list(s: &str) -> (v: Vec<usize>)
    ensures
        v@ == index_list(s@),
{
    let tv = chars_of(s);
    let ghost t = s@;
    let n = tv.len();
    let mut v: Vec<usize> = Vec::new();
    let mut i: usize = 0;
    assert(v@ + numbers_in(pieces_from(t, 0, Split::CommaWhite)) =~= numbers_in(pieces_from(t, 0, Split::CommaWhite)));
    loop
        invariant
            tv@ == t,
            t == s@,
            n == t.len(),
            i <= n,
            index_list(t) == v@ + numbers_in(pieces_from(t, i as int, Split::CommaWhite)),
        decreases n - i,
    {
        let mut k = i;
        while k < n && !(tv[k] == ',' || white(tv[k]))
            invariant
                i <= k <= n == tv@.len(),
                next_sep(tv@, k as int, Split::CommaWhite) == next_sep(tv@, i as int, Split::CommaWhite),
            decreases n - k,
        {
            k = k + 1;
        }
        let (a, b) = trim_bounds(&tv, i, k);
        let got = parse_index_at(&tv, a, b);
        let ghost piece = t.subrange(i as int, k as int);
        let ghost rest = if k >= n {
            Seq::<Seq<char>>::empty()
        } else {
            pieces_from(t, k + 1, Split::CommaWhite)
        };
        proof {
            assert(pieces_from(t, i as int, Split::CommaWhite) =~= seq![piece] + rest);
            lemma_numbers_in_cons(piece, rest);
        }
        let ghost before = v@;
        match got {
            Some(x) => {
                v.push(x);
                assert(before + (seq![x] + numbers_in(rest)) =~= v@ + numbers_in(rest));
            },
            None => {},
        }
        assert(index_list(t) == v@ + numbers_in(rest));
        if k >= n {
            assert(numbers_in(rest) == Seq::<usize>::empty());
            assert(v@ + Seq::<usize>::empty() =~= v@);
            return v;
        }
        i = k + 1;
    }
}

/// Indices written as a list, "3, 5, 8".
pub open spec fn comma_list(v: Seq<usize>) -> Seq<char>
    decreases v.len(),
{
    if v.len() == 0 {
        Seq::empty()
    } else if v.len() == 1 {
        decimal(v[0] as nat)
    } else {
        comma_list(v.drop_last()) + ", "@ + decimal(v.last() as nat)
    }
}

/// Writes indices as a list, "3, 5, 8".
pub fn write_index_list(v: &[usize]) -> (r: String)
    ensures
        r@ == comma_list(v@),
{
    let mut r = String::new();
    let mut i: usize = 0;
    while i < v.len()
        invariant
            i <= v@.len(),
            r@ == comma_list(v@.take(i as int)),
        decreases v@.len() - i,
    {
        assert(v@.take(i + 1).drop_last() =~= v@.take(i as int));
        if i > 0 {
            r.append(", ");
        }
        push_decimal(&mut r, v[i] as u64);
        proof {
            if i == 0 {
                assert(comma_list(v@.take(0)) =~= Seq::<char>::empty());
                assert(r@ =~= decimal(v@[0] as nat));
            } else {
                assert(r@ =~= comma_list(v@.take(i as int)) + ", "@ + decimal(v@[i as int] as nat));
            }
        }
        i = i + 1;
    }
    assert(v@.take(v@.len() as int) =~= v@);
    r
}

/// Where a feature reference points after the change `m`: its feature's
/// new place, or the deleted mark `usize::MAX` when the feature is gone.
pub open spec fn moved_ref(m: Renumber, old: usize) -> usize {
    match renumbered(m, old) {
        Some(n) => n,
        None => usize::MAX,
    }
}

/// The same for a reference that may be unset, which reads as feature 0:
/// it is set once the feature it reads as moves or is gone.
pub open spec fn moved_opt(m: Renumber, old: Option<usize>) -> Option<usize> {
    let shown = match old {
        Some(i) => i,
        None => 0usize,
    };
    match renumbered(m, shown) {
        Some(n) => if n != shown {
            Some(n)
        } else {
            old
        },
        None => Some(usize::MAX),
    }
}

/// The indices after the change `m`, those whose feature is gone left out.
pub open spec fn remapped(s: Seq<usize>, m: Renumber) -> Seq<usize>
    decreases s.len(),
{
    if s.len() == 0 {
        Seq::empty()
    } else {
        match renumbered(m, s.last()) {
            Some(n) => remapped(s.drop_last(), m).push(n),
            None => remapped(s.drop_last(), m),
        }
    }
}

pub proof fn lemma_remapped_len(s: Seq<usize>, m: Renumber)
    ensures
        remapped(s, m).len() <= s.len(),
    decreases s.len(),
{
    if s.len() > 0 {
        lemma_remapped_len(s.drop_last(), m);
    }
}

/// The indices after the change `m`, as `remapped`.
pub fn remap_indices(v: &[usize], m: &Renumber) -> (r: Vec<usize>)
    ensures
        r@ == remapped(v@, *m),
{
    let mut r: Vec<usize> = Vec::new();
    let mut i: usize = 0;
    while i < v.len()
        invariant
            i <= v@.len(),
            r@ == remapped(v@.take(i as int), *m),
        decreases v@.len() - i,
    {
        assert(v@.take(i + 1).drop_last() =~= v@.take(i as int));
        match renumber(m, v[i]) {
            Some(n) => r.push(n),
            None => {},
        }
        i = i + 1;
    }
    assert(v@.take(v@.len() as int) =~= v@);
    r
}

/// Whether two index lists are the same.
pub fn same_indices(a: &[usize], b: &[usize]) -> (r: bool)
    ensures
        r == (a@ == b@),
{
    if a.len() != b.len() {
        return false;
    }
    let mut i: usize = 0;
    while i < a.len()
        invariant
            i <= a@.len() == b@.len(),
            forall|j: int| 0 <= j < i ==> a@[j] == b@[j],
        decreases a@.len() - i,
    {
        if a[i] != b[i] {
            return false;
        }
        i = i + 1;
    }
    assert(a@ =~= b@);
    true
}

} // verus!
