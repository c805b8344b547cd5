//! Hot spots: where a casting may shrink, and whether the metal reaches it.

use vstd::prelude::*;
use crate::features::casting::{alloy_name_list, alloy_names};
use crate::param::{is_choice, is_length, is_text, spec, unknown_param, unknown_parameter, ParamSpec, ParamValue};
use crate::document::Renumber;
use crate::features::{comma_list, index_list, parse_index_list, remap_indices, remapped, same_indices, write_index_list};
use crate::text::{decimal, owned, str_eq};

verus! {

/// Where a casting may shrink, and whether the metal reaches it.
#[derive(Clone, Debug)]
pub struct HotSpotsFeature {
    /// Features whose bodies are the metal: the casting, the gating and
    /// the risers, as a list such as "15, 24, 25".
    pub metal: String,
    /// Features whose bodies are the part itself, a subset of `metal`.
    /// Empty: all metal.
    pub casting: String,
    /// Features whose bodies feed the casting.
    pub risers: String,
    /// Feature whose top is where the metal is poured in. Empty: the
    /// highest metal.
    pub pour_at: String,
    pub alloy: String,
    /// Chvorinov mold constant in s/mm2; 0 takes the alloy's value.
    pub mold_constant: String,
    /// Voxel edge in mm.
    pub voxel: String,
}

impl Default for HotSpotsFeature {
    fn default() -> (f: HotSpotsFeature)
        ensures
            f.metal@ == "1"@,
            f.casting@ == ""@,
            f.risers@ == ""@,
            f.pour_at@ == ""@,
            f.alloy@ == "grey cast iron"@,
            f.mold_constant@ == "0"@,
            f.voxel@ == "1.5"@,
    {
        HotSpotsFeature {
            metal: owned("1"),
            casting: owned(""),
            risers: owned(""),
            pour_at: owned(""),
            alloy: owned("grey cast iron"),
            mold_constant: owned("0"),
            voxel: owned("1.5"),
        }
    }
}

impl HotSpotsFeature {
    pub fn kind(&self) -> (r: &'static str)
        ensures
            r@ == "hot_spots"@,
    {
        "hot_spots"
    }

    pub fn name(&self) -> (r: String)
        ensures
            r@ == "Hot spots ("@ + self.metal@ + ")"@,
    {
        let mut r = String::new();
        r.append("Hot spots (");
        r.append(self.metal.as_str());
        r.append(")");
        assert(r@ =~= "Hot spots ("@ + self.metal@ + ")"@);
        r
    }

    pub fn params(&self) -> (v: Vec<ParamSpec>)
        ensures
            v@.len() == 7,
            is_text(v@[0], "metal"@, "Metal features (list)"@, self.metal@),
            is_text(v@[1], "casting"@, "Casting features (list, empty = all)"@, self.casting@),
            is_text(v@[2], "risers"@, "Riser features (list)"@, self.risers@),
            is_text(v@[3], "pour_at"@, "Pour at feature (empty = top)"@, self.pour_at@),
            is_choice(v@[4], "alloy"@, "Alloy"@, alloy_name_list(), self.alloy@),
            is_length(v@[5], "mold_constant"@, "Mold constant s/mm2 (0 = alloy)"@, self.mold_constant@),
            is_length(v@[6], "voxel"@, "Voxel size"@, self.voxel@),
    {
        vec![
            spec("metal", "Metal features (list)", self.metal.as_str()),
            spec("casting", "Casting features (list, empty = all)", self.casting.as_str()),
            spec("risers", "Riser features (list)", self.risers.as_str()),
            spec("pour_at", "Pour at feature (empty = top)", self.pour_at.as_str()),
            ParamSpec::choice("alloy", "Alloy", alloy_names(), self.alloy.as_str()),
            ParamSpec::length("mold_constant", "Mold constant s/mm2 (0 = alloy)", self.mold_constant.as_str()),
            ParamSpec::length("voxel", "Voxel size", self.voxel.as_str()),
        ]
    }

    /// Sets parameter `name`; an unknown name, or a value of the wrong
    /// kind, changes nothing and is an error.
    pub fn set_param(&mut self, name: &str, value: ParamValue) -> (r: Result<(), String>)
        ensures
            if name@ == "metal"@ {
                match value {
                    ParamValue::Expr(x) => r is Ok && *final(self) == (HotSpotsFeature { metal: x, ..*old(self) }),
                    _ => unknown_param(r, name@) && *final(self) == *old(self),
                }
            } else if name@ == "casting"@ {
                match value {
                    ParamValue::Expr(x) => r is Ok && *final(self) == (HotSpotsFeature { casting: x, ..*old(self) }),
                    _ => unknown_param(r, name@) && *final(self) == *old(self),
                }
            } else if name@ == "risers"@ {
                match value {
                    ParamValue::Expr(x) => r is Ok && *final(self) == (HotSpotsFeature { risers: x, ..*old(self) }),
                    _ => unknown_param(r, name@) && *final(self) == *old(self),
                }
            } else if name@ == "pour_at"@ {
                match value {
                    ParamValue::Expr(x) => r is Ok && *final(self) == (HotSpotsFeature { pour_at: x, ..*old(self) }),
                    _ => unknown_param(r, name@) && *final(self) == *old(self),
                }
            } else if name@ == "alloy"@ {
                match value {
                    ParamValue::Choice(x) => r is Ok && *final(self) == (HotSpotsFeature { alloy: x, ..*old(self) }),
                    _ => unknown_param(r, name@) && *final(self) == *old(self),
                }
            } else if name@ == "mold_constant"@ {
                match value {
                    ParamValue::Expr(x) => r is Ok && *final(self) == (HotSpotsFeature { mold_constant: x, ..*old(self) }),
                    _ => unknown_param(r, name@) && *final(self) == *old(self),
                }
            } else if name@ == "voxel"@ {
                match value {
                    ParamValue::Expr(x) => r is Ok && *final(self) == (HotSpotsFeature { voxel: x, ..*old(self) }),
                    _ => unknown_param(r, name@) && *final(self) == *old(self),
                }
            } else {
                unknown_param(r, name@) && *final(self) == *old(self)
            },
    {
        if str_eq(name, "metal") {
            if let ParamValue::Expr(x) = value {
                self.metal = x;
                return Ok(());
            }
        } else if str_eq(name, "casting") {
            if let ParamValue::Expr(x) = value {
                self.casting = x;
                return Ok(());
            }
        } else if str_eq(name, "risers") {
            if let ParamValue::Expr(x) = value {
                self.risers = x;
                return Ok(());
            }
        } else if str_eq(name, "pour_at") {
            if let ParamValue::Expr(x) = value {
                self.pour_at = x;
                return Ok(());
            }
        } else if str_eq(name, "alloy") {
            if let ParamValue::Choice(x) = value {
                self.alloy = x;
                return Ok(());
            }
        } else if str_eq(name, "mold_constant") {
            if let ParamValue::Expr(x) = value {
                self.mold_constant = x;
                return Ok(());
            }
        } else if str_eq(name, "voxel") {
            if let ParamValue::Expr(x) = value {
                self.voxel = x;
                return Ok(());
            }
        }
        Err(unknown_parameter(name))
    }
}

/// A feature list after a renumbering: each index moves with its feature
/// and one whose feature is gone is dropped; the text is written anew only
/// where the indices changed.
pub open spec fn list_after(list: Seq<char>, m: Renumber) -> Seq<char> {
    let old = index_list(list);
    let new = remapped(old, m);
    if new == old {
        list
    } else {
        comma_list(new)
    }
}

/// Whether a renumbering leaves a feature list pointing at a feature that is gone.
pub open spec fn list_broke(list: Seq<char>, m: Renumber) -> bool {
    remapped(index_list(list), m).len() != index_list(list).len()
}

/// The names of the lists that a renumbering breaks, in parameter order.
pub open spec fn hot_spots_broken(f: HotSpotsFeature, m: Renumber) -> Seq<Seq<char>> {
    (if list_broke(f.metal@, m) { seq!["metal"@] } else { Seq::empty() })
        + (if list_broke(f.casting@, m) { seq!["casting"@] } else { Seq::empty() })
        + (if list_broke(f.risers@, m) { seq!["risers"@] } else { Seq::empty() })
        + (if list_broke(f.pour_at@, m) { seq!["pour_at"@] } else { Seq::empty() })
}

/// Renumbers one feature list; whether it broke.
fn remap_list(list: &mut String, m: &Renumber) -> (broke: bool)
    ensures
        final(list)@ == list_after(old(list)@, *m),
        broke == list_broke(old(list)@, *m),
{
    let old = parse_index_list(list.as_str());
    let new = remap_indices(old.as_slice(), m);
    let broke = new.len() != old.len();
    if !same_indices(new.as_slice(), old.as_slice()) {
        *list = write_index_list(new.as_slice());
    }
    broke
}

impl HotSpotsFeature {
    /// Follows a renumbering of the document's features in the metal,
    /// casting, riser and pour lists; names each list that lost a feature.
    pub fn remap_refs(&mut self, m: &Renumber) -> (broken: Vec<&'static str>)
        ensures
            final(self).metal@ == list_after(old(self).metal@, *m),
            final(self).casting@ == list_after(old(self).casting@, *m),
            final(self).risers@ == list_after(old(self).risers@, *m),
            final(self).pour_at@ == list_after(old(self).pour_at@, *m),
            final(self).alloy == old(self).alloy,
            final(self).mold_constant == old(self).mold_constant,
            final(self).voxel == old(self).voxel,
            broken@.map_values(|s: &'static str| s@) == hot_spots_broken(*old(self), *m),
    {
        let ghost o = *self;
        let mut broken: Vec<&'static str> = Vec::new();
        if remap_list(&mut self.metal, m) {
            broken.push("metal");
        }
        if remap_list(&mut self.casting, m) {
            broken.push("casting");
        }
        if remap_list(&mut self.risers, m) {
            broken.push("risers");
        }
        if remap_list(&mut self.pour_at, m) {
            broken.push("pour_at");
        }
        assert(broken@.map_values(|s: &'static str| s@) =~= hot_spots_broken(o, *m));
        broken
    }
}

// ---------------------------------------------------------------- the voxel model

/// The size of a voxel grid. Cell `q` of the grid is the voxel at column
/// `i`, row `j`, layer `k` with `q = (i * ny + j) * nz + k`; `k` counts up.
#[derive(Clone, Copy, Debug, PartialEq, Eq)]
pub struct Dims {
    pub nx: usize,
    pub ny: usize,
    pub nz: usize,
}

/// The cells of one column slab: `ny * nz`.
pub open spec fn slab(d: Dims) -> int {
    d.ny * d.nz
}

/// The number of cells of the grid.
pub open spec fn cells(d: Dims) -> int {
    d.nx * slab(d)
}

/// The `k`-th neighbour of cell `q`, in the order -x, +x, -y, +y, -z, +z;
/// none at the edge of the grid.
pub open spec fn nbr(d: Dims, q: int, k: int) -> Option<int> {
    let l = slab(d);
    let i = q / l;
    let r = q % l;
    let j = r / d.nz as int;
    let z = r % d.nz as int;
    if k == 0 {
        if i > 0 { Some(q - l) } else { None }
    } else if k == 1 {
        if i + 1 < d.nx { Some(q + l) } else { None }
    } else if k == 2 {
        if j > 0 { Some(q - d.nz) } else { None }
    } else if k == 3 {
        if j + 1 < d.ny { Some(q + d.nz) } else { None }
    } else if k == 4 {
        if z > 0 { Some(q - 1) } else { None }
    } else {
        if z + 1 < d.nz { Some(q + 1) } else { None }
    }
}

/// Whether `b` is one of the neighbours of `a`.
pub open spec fn is_nbr(d: Dims, a: int, b: int) -> bool {
    ||| nbr(d, a, 0) == Some(b)
    ||| nbr(d, a, 1) == Some(b)
    ||| nbr(d, a, 2) == Some(b)
    ||| nbr(d, a, 3) == Some(b)
    ||| nbr(d, a, 4) == Some(b)
    ||| nbr(d, a, 5) == Some(b)
}

proof fn lemma_split(q: int, l: int, nx: int)
    by (nonlinear_arith)
    requires
        0 <= q < nx * l,
        l > 0,
    ensures
        0 <= q / l < nx,
        0 <= q % l < l,
        q == (q / l) * l + q % l,
{
}

proof fn lemma_step_up(i: int, l: int, r: int, nx: int)
    by (nonlinear_arith)
    requires
        0 <= r < l,
        i + 1 < nx,
        0 <= i,
    ensures
        i * l + r + l < nx * l,
{
}

proof fn lemma_step_up_within(j: int, nz: int, z: int, ny: int)
    by (nonlinear_arith)
    requires
        0 <= z < nz,
        j + 1 < ny,
        0 <= j,
    ensures
        j * nz + z + nz < ny * nz,
{
}

proof fn lemma_low(i: int, l: int, r: int)
    by (nonlinear_arith)
    requires
        i >= 1,
        0 <= r,
        l >= 0,
    ensures
        i * l + r >= l,
{
}

proof fn lemma_slab_pos(d: Dims, q: int)
    by (nonlinear_arith)
    requires
        0 <= q < d.nx * (d.ny * d.nz),
    ensures
        d.ny * d.nz > 0,
        d.nz > 0,
        d.ny > 0,
        d.nx > 0,
        d.ny * d.nz <= d.nx * (d.ny * d.nz),
{
}

/// A neighbour of a cell of the grid is a cell of the grid.
pub proof fn lemma_nbr_in_grid(d: Dims, q: int, k: int)
    requires
        0 <= q < cells(d),
    ensures
        nbr(d, q, k) matches Some(m) ==> 0 <= m < cells(d),
{
    let l = slab(d);
    lemma_slab_pos(d, q);
    lemma_split(q, l, d.nx as int);
    let i = q / l;
    let r = q % l;
    lemma_split(r, d.nz as int, d.ny as int);
    let j = r / d.nz as int;
    let z = r % d.nz as int;
    assert(q == i * l + r);
    assert(r == j * d.nz + z);
    assert(i * l + l <= d.nx * l) by (nonlinear_arith)
        requires
            i < d.nx,
            l > 0,
    ;
    assert(j * d.nz + d.nz <= d.ny * d.nz) by (nonlinear_arith)
        requires
            j < d.ny,
            d.nz > 0,
    ;
    if k == 0 && i > 0 {
        lemma_low(i, l, r);
        assert(q - l >= 0);
    } else if k == 1 && i + 1 < d.nx {
        lemma_step_up(i, l, r, d.nx as int);
        assert(q + l < cells(d));
    } else if k == 2 && j > 0 {
        lemma_low(j, d.nz as int, z);
        assert(q - d.nz >= 0);
    } else if k == 3 && j + 1 < d.ny {
        lemma_step_up_within(j, d.nz as int, z, d.ny as int);
        assert(q + d.nz < cells(d));
    } else if k == 5 && z + 1 < d.nz {
        assert(q + 1 < cells(d));
    }
}

/// The neighbours of cell `q` as `nbr` numbers them, `usize::MAX` for none.
pub fn neighbours(q: usize, d: Dims) -> (r: [usize; 6])
    requires
        q < cells(d),
        cells(d) <= usize::MAX,
    ensures
        forall|k: int| 0 <= k < 6 ==> #[trigger] r@[k] == match nbr(d, q as int, k) {
            Some(m) => m as usize,
            None => usize::MAX,
        },
        forall|k: int| 0 <= k < 6 ==> (#[trigger] nbr(d, q as int, k) matches Some(m) ==> 0 <= m < cells(d)),
{
    proof {
        lemma_slab_pos(d, q as int);
        assert forall|k: int| 0 <= k < 6 implies (#[trigger] nbr(d, q as int, k) matches Some(m) ==> 0 <= m < cells(d)) by {
            lemma_nbr_in_grid(d, q as int, k);
        }
        lemma_nbr_in_grid(d, q as int, 0);
        lemma_nbr_in_grid(d, q as int, 1);
        lemma_nbr_in_grid(d, q as int, 2);
        lemma_nbr_in_grid(d, q as int, 3);
        lemma_nbr_in_grid(d, q as int, 4);
        lemma_nbr_in_grid(d, q as int, 5);
    }
    let l = d.ny * d.nz;
    let i = q / l;
    let r = q % l;
    let j = r / d.nz;
    let z = r % d.nz;
    let mut out = [usize::MAX; 6];
    if i > 0 {
        out[0] = q - l;
    }
    if i + 1 < d.nx {
        out[1] = q + l;
    }
    if j > 0 {
        out[2] = q - d.nz;
    }
    if j + 1 < d.ny {
        out[3] = q + d.nz;
    }
    if z > 0 {
        out[4] = q - 1;
    }
    if z + 1 < d.nz {
        out[5] = q + 1;
    }
    out
}

/// Step `j` of a path: from `p[j]` to a neighbour that holds metal.
pub open spec fn link(inside: Seq<bool>, d: Dims, p: Seq<int>, j: int) -> bool {
    &&& is_nbr(d, p[j], p[j + 1])
    &&& 0 <= p[j + 1] < inside.len()
    &&& inside[p[j + 1]]
}

/// A path that starts at an entry cell and steps through touching metal.
pub open spec fn is_path(inside: Seq<bool>, d: Dims, entry: Seq<usize>, p: Seq<int>) -> bool {
    &&& p.len() > 0
    &&& exists|e: int| 0 <= e < entry.len() && entry[e] == p[0]
    &&& forall|j: int| 0 <= j < p.len() - 1 ==> #[trigger] link(inside, d, p, j)
}

/// Whether metal poured in at the entry cells reaches cell `q`.
pub open spec fn reachable(inside: Seq<bool>, d: Dims, entry: Seq<usize>, q: int) -> bool {
    exists|p: Seq<int>| #[trigger] is_path(inside, d, entry, p) && p.last() == q
}

/// Every neighbour of `q` that holds metal is marked.
pub open spec fn closed(inside: Seq<bool>, d: Dims, marked: Seq<bool>, q: int) -> bool {
    forall|k: int|
        0 <= k < 6 ==> (#[trigger] nbr(d, q, k) matches Some(m) ==> (inside[m] ==> marked[m]))
}

/// How many cells are not marked.
pub open spec fn unmarked(s: Seq<bool>) -> nat
    decreases s.len(),
{
    if s.len() == 0 {
        0
    } else {
        unmarked(s.drop_last()) + if s.last() { 0nat } else { 1nat }
    }
}

proof fn lemma_mark(s: Seq<bool>, i: int)
    requires
        0 <= i < s.len(),
        !s[i],
    ensures
        unmarked(s.update(i, true)) + 1 == unmarked(s),
    decreases s.len(),
{
    if i < s.len() - 1 {
        assert(s.update(i, true).drop_last() =~= s.drop_last().update(i, true));
        lemma_mark(s.drop_last(), i);
    } else {
        assert(s.update(i, true).drop_last() =~= s.drop_last());
    }
}

/// A path to a closed cell goes on to each of its metal neighbours.
proof fn lemma_extend(inside: Seq<bool>, d: Dims, entry: Seq<usize>, q: int, m: int)
    requires
        reachable(inside, d, entry, q),
        is_nbr(d, q, m),
        0 <= m < inside.len(),
        inside[m],
    ensures
        reachable(inside, d, entry, m),
{
    let p = choose|p: Seq<int>| #[trigger] is_path(inside, d, entry, p) && p.last() == q;
    let p2 = p.push(m);
    assert forall|j: int| 0 <= j < p2.len() - 1 implies #[trigger] link(inside, d, p2, j) by {
        if j < p.len() - 1 {
            assert(link(inside, d, p, j));
        }
    }
    assert(p2[0] == p[0]);
    assert(is_path(inside, d, entry, p2));
}

/// When every marked cell is closed and the entries are marked, every cell
/// that a path reaches is marked.
proof fn lemma_closed_reaches(inside: Seq<bool>, d: Dims, entry: Seq<usize>, marked: Seq<bool>, p: Seq<int>)
    requires
        is_path(inside, d, entry, p),
        marked.len() == inside.len(),
        forall|e: int| 0 <= e < entry.len() ==> 0 <= entry[e] < marked.len() && marked[entry[e] as int],
        forall|q: int| 0 <= q < marked.len() && marked[q] ==> closed(inside, d, marked, q),
    ensures
        0 <= p.last() < marked.len(),
        marked[p.last()],
    decreases p.len(),
{
    if p.len() > 1 {
        let p0 = p.drop_last();
        assert forall|j: int| 0 <= j < p0.len() - 1 implies #[trigger] link(inside, d, p0, j) by {
            assert(link(inside, d, p, j));
        }
        assert(p0[0] == p[0]);
        lemma_closed_reaches(inside, d, entry, marked, p0);
        let a = p0.last();
        assert(link(inside, d, p, p.len() - 2));
        assert(closed(inside, d, marked, a));
        let b = p.last();
        assert(nbr(d, a, 0) == Some(b) || nbr(d, a, 1) == Some(b) || nbr(d, a, 2) == Some(b) || nbr(d, a, 3)
            == Some(b) || nbr(d, a, 4) == Some(b) || nbr(d, a, 5) == Some(b));
    }
}

proof fn lemma_push_contains(s: Seq<usize>, v: usize)
    ensures
        s.push(v).contains(v),
        forall|x: usize| s.contains(x) ==> #[trigger] s.push(v).contains(x),
{
    assert(s.push(v)[s.len() as int] == v);
    assert forall|x: usize| s.contains(x) implies #[trigger] s.push(v).contains(x) by {
        let i = choose|i: int| 0 <= i < s.len() && s[i] == x;
        assert(s.push(v)[i] == x);
    }
}

proof fn lemma_pop_contains(st: Seq<usize>, q: usize, x: usize)
    requires
        st.push(q).contains(x),
        x != q,
    ensures
        st.contains(x),
{
    let i = choose|i: int| 0 <= i < st.push(q).len() && st.push(q)[i] == x;
    assert(i < st.len());
    assert(st[i] == x);
}

/// The cells that hold metal and are not marked yet.
pub open spec fn open_cells(inside: Seq<bool>, seen: Seq<bool>) -> Seq<bool> {
    Seq::new(inside.len(), |q: int| inside[q] && !seen[q])
}

/// A start cell or a newly marked cell is closed.
pub open spec fn fresh_closed(
    ins: Seq<bool>,
    d: Dims,
    ent: Seq<usize>,
    old_seen: Seq<bool>,
    seen: Seq<bool>,
    q: int,
) -> bool {
    (seen[q] && !old_seen[q]) || ent.contains(q as usize) ==> closed(ins, d, seen, q)
}

/// A start cell or a newly marked cell is on the stack or closed.
pub open spec fn settled(
    ins: Seq<bool>,
    d: Dims,
    ent: Seq<usize>,
    old_seen: Seq<bool>,
    seen: Seq<bool>,
    stack: Seq<usize>,
    q: int,
) -> bool {
    (seen[q] && !old_seen[q]) || ent.contains(q as usize) ==> stack.contains(q as usize) || closed(ins, d, seen, q)
}

/// Marks the start cells and every cell that a path from them through
/// unmarked metal reaches; gives how many cells it took off the stack.
fn flood(inside: &[bool], d: Dims, seen: &mut Vec<bool>, start: &[usize]) -> (count: usize)
    requires
        inside@.len() == cells(d),
        old(seen)@.len() == cells(d),
        cells(d) <= usize::MAX,
        forall|e: int| 0 <= e < start@.len() ==> start@[e] < cells(d),
    ensures
        final(seen)@.len() == cells(d),
        forall|q: int|
            0 <= q < cells(d) ==> (final(seen)@[q] <==> old(seen)@[q] || reachable(
                open_cells(inside@, old(seen)@),
                d,
                start@,
                q,
            )),
        start@.len() == 1 && !old(seen)@[start@[0] as int] ==> count == unmarked(old(seen)@) - unmarked(
            final(seen)@,
        ),
{
    let n = inside.len();
    let ghost ins = inside@;
    let ghost ent = start@;
    let ghost old_seen = seen@;
    let ghost avail = open_cells(ins, old_seen);
    let ghost single = start@.len() == 1 && !old_seen[start@[0] as int];
    let mut stack: Vec<usize> = Vec::new();
    let mut e: usize = 0;
    while e < start.len()
        invariant
            e <= ent.len(),
            n == ins.len(),
            ins == inside@,
            ent == start@,
            ins.len() == cells(d),
            old_seen.len() == n,
            seen@.len() == n,
            avail == open_cells(ins, old_seen),
            single == (ent.len() == 1 && !old_seen[ent[0] as int]),
            forall|x: int| 0 <= x < ent.len() ==> ent[x] < n,
            forall|x: int| 0 <= x < stack@.len() ==> stack@[x] < n && seen@[stack@[x] as int],
            forall|x: int| 0 <= x < e ==> seen@[ent[x] as int] && stack@.contains(ent[x]),
            forall|x: int|
                0 <= x < stack@.len() ==> (seen@[stack@[x] as int] && !old_seen[stack@[x] as int]) || ent.contains(
                    stack@[x],
                ),
            forall|q: int| 0 <= q < n ==> old_seen[q] ==> seen@[q],
            forall|q: int| 0 <= q < n && seen@[q] && !old_seen[q] ==> stack@.contains(q as usize),
            forall|q: int| 0 <= q < n && seen@[q] && !old_seen[q] ==> reachable(avail, d, ent, q),
            single ==> stack@.len() == unmarked(old_seen) - unmarked(seen@),
            !single ==> unmarked(seen@) <= unmarked(old_seen),
            e == 0 ==> seen@ == old_seen && stack@.len() == 0,
        decreases ent.len() - e,
    {
        let q = start[e];
        proof {
            let p = seq![q as int];
            assert(ent[e as int] == p[0]);
            assert(is_path(avail, d, ent, p));
            lemma_push_contains(stack@, q);
            assert(ent.contains(q));
            if !seen@[q as int] {
                lemma_mark(seen@, q as int);
            } else {
                assert(seen@.update(q as int, true) =~= seen@);
            }
        }
        seen.set(q, true);
        stack.push(q);
        e = e + 1;
    }
    proof {
        assert forall|q: int| 0 <= q < n && #[trigger] ent.contains(q as usize) implies stack@.contains(q as usize) by {
            let i = choose|i: int| 0 <= i < ent.len() && ent[i] == q as usize;
            assert(stack@.contains(ent[i]));
        }
    }
    let mut count: usize = 0;
    while stack.len() > 0
        invariant
            n == ins.len(),
            ins == inside@,
            ent == start@,
            ins.len() == cells(d),
            cells(d) <= usize::MAX,
            old_seen.len() == n,
            seen@.len() == n,
            avail == open_cells(ins, old_seen),
            single == (ent.len() == 1 && !old_seen[ent[0] as int]),
            forall|x: int| 0 <= x < ent.len() ==> seen@[ent[x] as int] && ent[x] < n,
            forall|x: int| 0 <= x < stack@.len() ==> stack@[x] < n && seen@[stack@[x] as int],
            forall|x: int|
                0 <= x < stack@.len() ==> (seen@[stack@[x] as int] && !old_seen[stack@[x] as int]) || ent.contains(
                    stack@[x],
                ),
            forall|q: int| 0 <= q < n ==> old_seen[q] ==> seen@[q],
            forall|q: int| 0 <= q < n ==> #[trigger] settled(ins, d, ent, old_seen, seen@, stack@, q),
            forall|q: int| 0 <= q < n && seen@[q] && !old_seen[q] ==> reachable(avail, d, ent, q),
            single ==> count + stack@.len() == unmarked(old_seen) - unmarked(seen@),
            count <= n,
        decreases unmarked(seen@), stack@.len(),
    {
        let ghost full = stack@;
        let q = match stack.pop() {
            None => 0,
            Some(q) => q,
        };
        proof {
            lemma_unmarked_len(old_seen);
            if single {
                assert(count < n);
            }
        }
        count = if count < n { count + 1 } else { count };
        let ghost st = stack@;
        assert(full == st.push(q));
        assert(full[full.len() - 1] == q);
        assert(forall|x: int| 0 <= x < st.len() ==> st[x] == full[x]);
        let ghost before = seen@;
        let nb = neighbours(q, d);
        let mut k: usize = 0;
        while k < 6
            invariant
                k <= 6,
                n == ins.len(),
                ins == inside@,
                ent == start@,
                ins.len() == cells(d),
                seen@.len() == n,
                before.len() == n,
                old_seen.len() == n,
                avail == open_cells(ins, old_seen),
                full == st.push(q),
                forall|x: int| 0 <= x < n ==> #[trigger] settled(ins, d, ent, old_seen, before, full, x),
                q < n,
                seen@[q as int],
                (before[q as int] && !old_seen[q as int]) || ent.contains(q),
                forall|x: int| 0 <= x < 6 ==> #[trigger] nb@[x] == match nbr(d, q as int, x) {
                    Some(m) => m as usize,
                    None => usize::MAX,
                },
                forall|x: int| 0 <= x < 6 ==> (#[trigger] nbr(d, q as int, x) matches Some(m) ==> 0 <= m < cells(d)),
                st.len() <= stack@.len(),
                forall|x: usize| st.contains(x) ==> #[trigger] stack@.contains(x),
                forall|x: int| 0 <= x < ent.len() ==> seen@[ent[x] as int] && ent[x] < n,
                forall|x: int| 0 <= x < stack@.len() ==> stack@[x] < n && seen@[stack@[x] as int],
                forall|x: int|
                    0 <= x < stack@.len() ==> (seen@[stack@[x] as int] && !old_seen[stack@[x] as int])
                        || ent.contains(stack@[x]),
                forall|x: int| 0 <= x < n ==> old_seen[x] ==> before[x],
                forall|x: int| 0 <= x < n ==> before[x] ==> seen@[x],
                forall|x: int| 0 <= x < n && seen@[x] && !before[x] ==> stack@.contains(x as usize),
                forall|x: int| 0 <= x < n && seen@[x] && !old_seen[x] ==> reachable(avail, d, ent, x),
                forall|x: int| 0 <= x < k ==> (#[trigger] nbr(d, q as int, x) matches Some(m) ==> (ins[m] ==> seen@[m])),
                unmarked(seen@) <= unmarked(before),
                unmarked(seen@) + stack@.len() == unmarked(before) + st.len(),
            decreases 6 - k,
        {
            let m = nb[k];
            if m != usize::MAX && inside[m] && !seen[m] {
                proof {
                    lemma_mark(seen@, m as int);
                    assert(is_nbr(d, q as int, m as int));
                    assert(avail[m as int]);
                    if !old_seen[q as int] && seen@[q as int] {
                        lemma_extend(avail, d, ent, q as int, m as int);
                    } else {
                        let i = choose|i: int| 0 <= i < ent.len() && ent[i] == q;
                        let p = seq![q as int];
                        assert(ent[i] == p[0]);
                        assert(is_path(avail, d, ent, p));
                        lemma_extend(avail, d, ent, q as int, m as int);
                    }
                    lemma_push_contains(stack@, m);
                }
                seen.set(m, true);
                stack.push(m);
            }
            k = k + 1;
        }
        proof {
            assert(closed(ins, d, seen@, q as int));
            lemma_step_closed(ins, d, ent, old_seen, before, seen@, full, st, stack@, q);
        }
    }
    proof {
        assert forall|q: int| 0 <= q < n implies #[trigger] fresh_closed(ins, d, ent, old_seen, seen@, q) by {
            assert(settled(ins, d, ent, old_seen, seen@, stack@, q));
            if stack@.contains(q as usize) {
                let i = choose|i: int| 0 <= i < stack@.len() && stack@[i] == q as usize;
            }
        }
        assert forall|q: int| 0 <= q < cells(d) implies (seen@[q] <==> old_seen[q] || reachable(avail, d, ent, q)) by {
            if reachable(avail, d, ent, q) {
                let p = choose|p: Seq<int>| #[trigger] is_path(avail, d, ent, p) && p.last() == q;
                lemma_fresh_reaches(ins, d, ent, old_seen, seen@, p);
            }
        }
        assert(old_seen == old(seen)@);
        assert(avail == open_cells(inside@, old(seen)@));
        assert forall|q: int| 0 <= q < cells(d) implies (seen@[q] <==> old(seen)@[q] || reachable(
            open_cells(inside@, old(seen)@),
            d,
            start@,
            q,
        )) by {
            assert(seen@[q] <==> old_seen[q] || reachable(avail, d, ent, q));
        }
    }
    count
}

/// After cell `q` is taken off the stack and its neighbours are marked,
/// every start cell and newly marked cell is still on the stack or closed.
proof fn lemma_step_closed(
    ins: Seq<bool>,
    d: Dims,
    ent: Seq<usize>,
    old_seen: Seq<bool>,
    before: Seq<bool>,
    seen: Seq<bool>,
    full: Seq<usize>,
    st: Seq<usize>,
    stack: Seq<usize>,
    q: usize,
)
    requires
        ins.len() == cells(d),
        ins.len() <= usize::MAX,
        before.len() == ins.len(),
        seen.len() == ins.len(),
        old_seen.len() == ins.len(),
        full == st.push(q),
        q < ins.len(),
        forall|x: int| 0 <= x < ins.len() ==> #[trigger] settled(ins, d, ent, old_seen, before, full, x),
        forall|x: int| 0 <= x < ins.len() ==> before[x] ==> seen[x],
        forall|x: int| 0 <= x < ins.len() && seen[x] && !before[x] ==> stack.contains(x as usize),
        forall|x: usize| st.contains(x) ==> #[trigger] stack.contains(x),
        closed(ins, d, seen, q as int),
    ensures
        forall|x: int| 0 <= x < ins.len() ==> #[trigger] settled(ins, d, ent, old_seen, seen, stack, x),
{
    assert forall|x: int| 0 <= x < ins.len() implies #[trigger] settled(ins, d, ent, old_seen, seen, stack, x) by {
        assert(settled(ins, d, ent, old_seen, before, full, x));
        if ((seen[x] && !old_seen[x]) || ent.contains(x as usize)) && x != q as int && !(seen[x] && !before[x]) {
            if !closed(ins, d, before, x) {
                assert(full.contains(x as usize));
                lemma_pop_contains(st, q, x as usize);
                assert(stack.contains(x as usize));
            } else {
                assert forall|kk: int| 0 <= kk < 6 implies (#[trigger] nbr(d, x, kk) matches Some(m) ==> (ins[m]
                    ==> seen[m])) by {
                    lemma_nbr_in_grid(d, x, kk);
                }
            }
        }
    }
}

proof fn lemma_unmarked_len(s: Seq<bool>)
    ensures
        unmarked(s) <= s.len(),
    decreases s.len(),
{
    if s.len() > 0 {
        lemma_unmarked_len(s.drop_last());
    }
}

/// A path through unmarked metal from a start cell ends on a marked cell,
/// when the start cells and the newly marked cells are all closed.
proof fn lemma_fresh_reaches(
    inside: Seq<bool>,
    d: Dims,
    start: Seq<usize>,
    old_seen: Seq<bool>,
    seen: Seq<bool>,
    p: Seq<int>,
)
    requires
        is_path(open_cells(inside, old_seen), d, start, p),
        seen.len() == inside.len(),
        old_seen.len() == inside.len(),
        forall|e: int| 0 <= e < start.len() ==> 0 <= start[e] < seen.len() && seen[start[e] as int],
        forall|q: int| 0 <= q < seen.len() ==> old_seen[q] ==> seen[q],
        forall|q: int| 0 <= q < seen.len() ==> #[trigger] fresh_closed(inside, d, start, old_seen, seen, q),
    ensures
        0 <= p.last() < seen.len(),
        seen[p.last()],
        (p.len() > 1 ==> !old_seen[p.last()]),
        (p.len() == 1 ==> start.contains(p.last() as usize)),
    decreases p.len(),
{
    let avail = open_cells(inside, old_seen);
    if p.len() > 1 {
        let p0 = p.drop_last();
        assert forall|j: int| 0 <= j < p0.len() - 1 implies #[trigger] link(avail, d, p0, j) by {
            assert(link(avail, d, p, j));
        }
        assert(p0[0] == p[0]);
        lemma_fresh_reaches(inside, d, start, old_seen, seen, p0);
        let a = p0.last();
        assert(fresh_closed(inside, d, start, old_seen, seen, a));
        assert(link(avail, d, p, p.len() - 2));
        assert(closed(inside, d, seen, a));
        let b = p.last();
        assert(nbr(d, a, 0) == Some(b) || nbr(d, a, 1) == Some(b) || nbr(d, a, 2) == Some(b) || nbr(d, a, 3)
            == Some(b) || nbr(d, a, 4) == Some(b) || nbr(d, a, 5) == Some(b));
        assert(avail[b]);
    } else {
        let e = choose|e: int| 0 <= e < start.len() && start[e] == p[0];
        assert(start[e] == p.last() as usize);
    }
}

/// Pours metal in at the entry cells and lets it spread through touching
/// metal: marks every cell that it reaches.
pub fn fill(inside: &[bool], d: Dims, entry: &[usize]) -> (reached: Vec<bool>)
    requires
        inside@.len() == cells(d),
        cells(d) <= usize::MAX,
        forall|e: int| 0 <= e < entry@.len() ==> entry@[e] < cells(d),
    ensures
        reached@.len() == cells(d),
        forall|q: int| 0 <= q < cells(d) ==> (reached@[q] <==> reachable(inside@, d, entry@, q)),
{
    let n = inside.len();
    let mut reached: Vec<bool> = Vec::new();
    while reached.len() < n
        invariant
            reached@.len() <= n,
            forall|q: int| 0 <= q < reached@.len() ==> !reached@[q],
        decreases n - reached@.len(),
    {
        reached.push(false);
    }
    let ghost none = reached@;
    assert(open_cells(inside@, none) =~= inside@);
    flood(inside, d, &mut reached, entry);
    reached
}

/// The pour grid as plain values.
pub open spec fn pour_view(pour: Option<&[bool]>) -> Option<Seq<bool>> {
    match pour {
        Some(g) => Some(g@),
        None => None,
    }
}

/// Whether cell `q` is metal where the metal is poured in: metal of the
/// pour body, or any metal when there is no pour body.
pub open spec fn pours(inside: Seq<bool>, pour: Option<Seq<bool>>, q: int) -> bool {
    inside[q] && match pour {
        Some(g) => g[q],
        None => true,
    }
}

/// The highest layer of a cell below `upto` that `pours`.
pub open spec fn top_layer(inside: Seq<bool>, pour: Option<Seq<bool>>, nz: int, upto: int) -> Option<int>
    decreases upto,
{
    if upto <= 0 {
        None
    } else {
        let t = top_layer(inside, pour, nz, upto - 1);
        let q = upto - 1;
        if pours(inside, pour, q) {
            match t {
                Some(x) => Some(if q % nz > x { q % nz } else { x }),
                None => Some(q % nz),
            }
        } else {
            t
        }
    }
}

/// Whether metal is poured in at cell `q`: the top layer of the pour body's
/// metal and the layer under it; with no pour body, the top layer of the metal.
pub open spec fn is_entry(inside: Seq<bool>, pour: Option<Seq<bool>>, nz: int, q: int) -> bool {
    match top_layer(inside, pour, nz, inside.len() as int) {
        None => false,
        Some(kt) => pours(inside, pour, q) && match pour {
            Some(_) => q % nz + 1 >= kt,
            None => q % nz == kt,
        },
    }
}

/// The entry cells below `upto`, in order.
pub open spec fn entries_below(inside: Seq<bool>, pour: Option<Seq<bool>>, nz: int, upto: int) -> Seq<usize>
    decreases upto,
{
    if upto <= 0 {
        Seq::empty()
    } else if is_entry(inside, pour, nz, upto - 1) {
        entries_below(inside, pour, nz, upto - 1).push((upto - 1) as usize)
    } else {
        entries_below(inside, pour, nz, upto - 1)
    }
}

proof fn lemma_entries_below(inside: Seq<bool>, pour: Option<Seq<bool>>, nz: int, upto: int)
    requires
        0 <= upto,
        upto <= usize::MAX,
    ensures
        forall|e: int| 0 <= e < entries_below(inside, pour, nz, upto).len() ==> entries_below(inside, pour, nz, upto)[e] < upto,
    decreases upto,
{
    if upto > 0 {
        lemma_entries_below(inside, pour, nz, upto - 1);
        let r = entries_below(inside, pour, nz, upto - 1);
        if is_entry(inside, pour, nz, upto - 1) {
            let x = (upto - 1) as usize;
            assert(x as int == upto - 1);
            let r2 = r.push(x);
            assert forall|e: int| 0 <= e < r2.len() implies #[trigger] r2[e] < upto by {
                if e < r.len() {
                    assert(r2[e] == r[e]);
                }
            }
        }
    }
}

/// Where the metal is poured in, as `is_entry` says, in cell order.
pub fn entry_cells(inside: &[bool], pour: Option<&[bool]>, d: Dims) -> (r: Vec<usize>)
    requires
        inside@.len() == cells(d),
        cells(d) <= usize::MAX,
        pour matches Some(g) ==> g@.len() == cells(d),
    ensures
        r@ == entries_below(inside@, pour_view(pour), d.nz as int, cells(d)),
        forall|e: int| 0 <= e < r@.len() ==> r@[e] < cells(d),
{
    let n = inside.len();
    let ghost pv = pour_view(pour);
    let ghost nz = d.nz as int;
    let mut top: Option<usize> = None;
    let mut q: usize = 0;
    while q < n
        invariant
            q <= n,
            n == inside@.len(),
            n == cells(d),
            pv == pour_view(pour),
            pour matches Some(g) ==> g@.len() == n,
            nz == d.nz,
            match (top, top_layer(inside@, pv, nz, q as int)) {
                (None, None) => true,
                (Some(x), Some(y)) => x == y,
                _ => false,
            },
        decreases n - q,
    {
        let here = inside[q] && match pour {
            Some(g) => g[q],
            None => true,
        };
        if here {
            proof {
                lemma_slab_pos(d, q as int);
            }
            let z = q % d.nz;
            top = Some(
                match top {
                    Some(x) => if z > x {
                        z
                    } else {
                        x
                    },
                    None => z,
                },
            );
        }
        q = q + 1;
    }
    let mut out: Vec<usize> = Vec::new();
    let kt = match top {
        None => {
            proof {
                assert forall|k: int| 0 <= k <= n implies entries_below(inside@, pv, nz, k) =~= Seq::<usize>::empty() by {
                    lemma_no_entries(inside@, pv, nz, k);
                }
            }
            return out;
        },
        Some(kt) => kt,
    };
    let mut q: usize = 0;
    while q < n
        invariant
            q <= n,
            n == inside@.len(),
            n == cells(d),
            pv == pour_view(pour),
            pour matches Some(g) ==> g@.len() == n,
            nz == d.nz,
            top_layer(inside@, pv, nz, n as int) == Some(kt as int),
            out@ == entries_below(inside@, pv, nz, q as int),
        decreases n - q,
    {
        let here = inside[q] && match pour {
            Some(g) => g[q],
            None => true,
        };
        if here {
            proof {
                lemma_slab_pos(d, q as int);
            }
            let z = q % d.nz;
            let take = match pour {
                Some(_) => z + 1 >= kt,
                None => z == kt,
            };
            if take {
                out.push(q);
            }
        }
        q = q + 1;
    }
    proof {
        lemma_entries_below(inside@, pv, nz, n as int);
    }
    out
}

proof fn lemma_no_entries(inside: Seq<bool>, pour: Option<Seq<bool>>, nz: int, k: int)
    requires
        top_layer(inside, pour, nz, inside.len() as int) is None,
    ensures
        entries_below(inside, pour, nz, k) == Seq::<usize>::empty(),
    decreases k,
{
    if k > 0 {
        lemma_no_entries(inside, pour, nz, k - 1);
    }
}

/// How many cells hold metal.
pub fn metal_voxels(inside: &[bool]) -> (r: usize)
    ensures
        r == inside@.len() - unmarked(inside@),
{
    let mut r: usize = 0;
    let mut k: usize = 0;
    proof {
        lemma_unmarked_len(inside@);
    }
    while k < inside.len()
        invariant
            k <= inside@.len(),
            r == k - unmarked(inside@.take(k as int)),
            unmarked(inside@.take(k as int)) <= k,
        decreases inside@.len() - k,
    {
        assert(inside@.take(k + 1).drop_last() =~= inside@.take(k as int));
        if inside[k] {
            r = r + 1;
        }
        k = k + 1;
    }
    assert(inside@.take(k as int) =~= inside@);
    r
}

/// Most voxels the model takes on.
pub const MAX_VOXELS: usize = 40_000_000;

/// The number of cells of a grid, or why the grid is too large to model.
pub fn grid_cells(d: Dims) -> (r: Result<usize, String>)
    requires
        d.nx * d.ny <= usize::MAX,
        cells(d) <= usize::MAX,
    ensures
        match r {
            Ok(c) => c == cells(d) && c <= MAX_VOXELS,
            Err(m) => cells(d) > MAX_VOXELS && m@ == decimal(cells(d) as nat)
                + " voxels is too many; use a larger voxel size"@,
        },
{
    proof {
        assert(d.nx * d.ny * d.nz == d.nx * (d.ny * d.nz)) by (nonlinear_arith);
    }
    let c = d.nx * d.ny * d.nz;
    if c > MAX_VOXELS {
        let mut m = String::new();
        crate::text::push_decimal(&mut m, c as u64);
        m.append(" voxels is too many; use a larger voxel size");
        return Err(m);
    }
    Ok(c)
}

/// The smallest region of unreached metal worth a line in the report, in
/// voxels; smaller ones are details thinner than the voxels.
pub const MIN_POCKET: usize = 20;

/// The cells marked after metal spreads from cell `q0` through the metal
/// not marked yet.
pub open spec fn after_flood(inside: Seq<bool>, d: Dims, seen: Seq<bool>, q0: int) -> Seq<bool> {
    Seq::new(seen.len(), |q: int| seen[q] || reachable(open_cells(inside, seen), d, seq![q0 as usize], q))
}

/// The unmarked metal from cell `q0` on, region by region, each region the
/// metal that spreads from its first cell: the cells in regions of at
/// least `MIN_POCKET` cells, and the cells in smaller regions.
pub open spec fn tally(inside: Seq<bool>, d: Dims, seen: Seq<bool>, q0: int) -> (int, int)
    decreases seen.len() - q0,
{
    if q0 < 0 || q0 >= seen.len() {
        (0, 0)
    } else if !inside[q0] || seen[q0] {
        tally(inside, d, seen, q0 + 1)
    } else {
        let s2 = after_flood(inside, d, seen, q0);
        let size = unmarked(seen) - unmarked(s2);
        let t = tally(inside, d, s2, q0 + 1);
        if size >= MIN_POCKET {
            (t.0 + size, t.1)
        } else {
            (t.0, t.1 + size)
        }
    }
}

/// How many cells hold metal but are not marked.
pub open spec fn lost_metal(inside: Seq<bool>, seen: Seq<bool>) -> nat
    decreases seen.len(),
{
    if seen.len() == 0 {
        0
    } else {
        lost_metal(inside, seen.drop_last()) + if inside[seen.len() - 1] && !seen.last() {
            1nat
        } else {
            0nat
        }
    }
}

proof fn lemma_count_diff(inside: Seq<bool>, a: Seq<bool>, b: Seq<bool>)
    requires
        a.len() == b.len(),
        b.len() <= inside.len(),
        forall|q: int| 0 <= q < a.len() ==> a[q] ==> b[q],
        forall|q: int| 0 <= q < a.len() ==> b[q] && !a[q] ==> inside[q],
    ensures
        unmarked(a) - unmarked(b) == lost_metal(inside, a) - lost_metal(inside, b),
        unmarked(b) <= unmarked(a),
        lost_metal(inside, b) <= lost_metal(inside, a),
    decreases a.len(),
{
    if a.len() > 0 {
        lemma_count_diff(inside, a.drop_last(), b.drop_last());
    }
}

proof fn lemma_lost_zero(inside: Seq<bool>, seen: Seq<bool>)
    requires
        seen.len() <= inside.len(),
        forall|q: int| 0 <= q < seen.len() ==> inside[q] ==> seen[q],
    ensures
        lost_metal(inside, seen) == 0,
    decreases seen.len(),
{
    if seen.len() > 0 {
        lemma_lost_zero(inside, seen.drop_last());
    }
}

/// A cell that metal reaches from a metal cell is metal.
proof fn lemma_reach_inside(inside: Seq<bool>, d: Dims, seen: Seq<bool>, q0: int, q: int)
    requires
        seen.len() == inside.len(),
        0 <= q0 < inside.len(),
        q0 <= usize::MAX,
        inside[q0],
        !seen[q0],
        reachable(open_cells(inside, seen), d, seq![q0 as usize], q),
    ensures
        0 <= q < inside.len(),
        inside[q],
{
    let o = open_cells(inside, seen);
    let p = choose|p: Seq<int>| #[trigger] is_path(o, d, seq![q0 as usize], p) && p.last() == q;
    if p.len() > 1 {
        assert(link(o, d, p, p.len() - 2));
    } else {
        let st = seq![q0 as usize];
        let e = choose|e: int| 0 <= e < st.len() && #[trigger] st[e] == p[0];
        assert(st[e] == q0);
    }
}

/// The counts of a tally from `q0` on are all the unmarked metal, when
/// the metal below `q0` is marked.
proof fn lemma_tally_sum(inside: Seq<bool>, d: Dims, seen: Seq<bool>, q0: int)
    requires
        seen.len() == inside.len(),
        inside.len() <= usize::MAX,
        0 <= q0,
        forall|q: int| 0 <= q < q0 && q < seen.len() ==> inside[q] ==> seen[q],
    ensures
        tally(inside, d, seen, q0).0 + tally(inside, d, seen, q0).1 == lost_metal(inside, seen),
    decreases seen.len() - q0,
{
    if q0 >= seen.len() {
        lemma_lost_zero(inside, seen);
    } else if !inside[q0] || seen[q0] {
        lemma_tally_sum(inside, d, seen, q0 + 1);
    } else {
        let s2 = after_flood(inside, d, seen, q0);
        let o = open_cells(inside, seen);
        assert forall|q: int| 0 <= q < seen.len() implies (s2[q] && !seen[q] ==> inside[q]) by {
            if s2[q] && !seen[q] {
                lemma_reach_inside(inside, d, seen, q0, q);
            }
        }
        let p = seq![q0];
        assert(seq![q0 as usize][0] == p[0]);
        assert(is_path(o, d, seq![q0 as usize], p));
        assert(s2[q0]);
        lemma_count_diff(inside, seen, s2);
        lemma_tally_sum(inside, d, s2, q0 + 1);
    }
}

/// The metal that the pour does not reach, counted region by region:
/// cells in regions of at least `MIN_POCKET` cells, and cells in smaller
/// regions, which are details thinner than the voxels.
pub fn unreached_regions(inside: &[bool], reached: &[bool], d: Dims) -> (r: (usize, usize))
    requires
        inside@.len() == cells(d),
        reached@.len() == cells(d),
        cells(d) <= usize::MAX,
    ensures
        (r.0 as int, r.1 as int) == tally(inside@, d, reached@, 0),
        r.0 + r.1 == lost_metal(inside@, reached@),
{
    proof {
        lemma_tally_sum(inside@, d, reached@, 0);
    }
    let n = inside.len();
    let mut seen: Vec<bool> = Vec::new();
    let mut k: usize = 0;
    while k < n
        invariant
            k <= n,
            n == reached@.len(),
            seen@ == reached@.take(k as int),
        decreases n - k,
    {
        seen.push(reached[k]);
        assert(seen@ =~= reached@.take(k + 1));
        k = k + 1;
    }
    assert(seen@ =~= reached@);
    proof {
        lemma_unmarked_len(reached@);
    }
    let mut unreached: usize = 0;
    let mut specks: usize = 0;
    let mut q0: usize = 0;
    while q0 < n
        invariant
            q0 <= n,
            n == inside@.len(),
            n == cells(d),
            cells(d) <= usize::MAX,
            seen@.len() == n,
            unmarked(reached@) <= n,
            tally(inside@, d, reached@, 0) == (unreached + tally(inside@, d, seen@, q0 as int).0, specks + tally(
                inside@,
                d,
                seen@,
                q0 as int,
            ).1),
            unreached + specks + unmarked(seen@) == unmarked(reached@),
        decreases n - q0,
    {
        if inside[q0] && !seen[q0] {
            let ghost before = seen@;
            let start = vec![q0];
            assert(start@ == seq![q0]);
            let region = flood(inside, d, &mut seen, start.as_slice());
            assert(seen@ =~= after_flood(inside@, d, before, q0 as int));
            if region >= MIN_POCKET {
                unreached = unreached + region;
            } else {
                specks = specks + region;
            }
        }
        q0 = q0 + 1;
    }
    (unreached, specks)
}

} // verus!
