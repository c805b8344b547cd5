//! What a feature reports when it cannot be rebuilt, and the bookkeeping of
//! the feature history: how references are renumbered when features are
//! added, removed or moved, how maps keyed by feature follow, where the
//! rollback bar goes, and the undo and redo lists.

use vstd::prelude::*;
use crate::expr::ExprError;
use crate::text::{decimal, owned, push_decimal};
use std::collections::HashMap;

verus! {

/// Index of a feature in the history.
pub type FeatureId = usize;

/// Why a feature could not be rebuilt.
#[derive(Debug)]
pub enum RegenError {
    /// An expression did not evaluate.
    Expr(ExprError),
    /// Feature `.0` uses feature `.1`, which lacks the thing named by `.2`.
    BadReference(FeatureId, FeatureId, &'static str),
    Other(String),
}

/// The text of a bad reference: the target was deleted (it reads
/// `usize::MAX`) or it has no `what`.
pub open spec fn bad_ref_message(me: nat, target: nat, what: Seq<char>) -> Seq<char> {
    if target == usize::MAX {
        "feature "@ + decimal(me) + " uses a feature that was deleted; choose a new "@ + what
            + " in Properties"@
    } else {
        "feature "@ + decimal(me) + " uses feature "@ + decimal(target) + ", which has no "@ + what
    }
}

/// Says why feature `me` cannot use feature `target`.
pub fn bad_ref_text(me: &FeatureId, target: &FeatureId, what: &str) -> (r: String)
    ensures
        r@ == bad_ref_message(*me as nat, *target as nat, what@),
{
    let mut r = owned("feature ");
    push_decimal(&mut r, *me as u64);
    if *target == usize::MAX {
        r.append(" uses a feature that was deleted; choose a new ");
        r.append(what);
        r.append(" in Properties");
    } else {
        r.append(" uses feature ");
        push_decimal(&mut r, *target as u64);
        r.append(", which has no ");
        r.append(what);
    }
    r
}

/// The text that reports why a feature could not be rebuilt.
pub open spec fn regen_error_text(e: RegenError) -> Seq<char> {
    match e {
        RegenError::Expr(x) => "expression error: "@ + crate::expr::expr_error_text(x),
        RegenError::BadReference(me, target, what) => bad_ref_message(me as nat, target as nat, what@),
        RegenError::Other(s) => s@,
    }
}

impl RegenError {
    /// The text that reports this error.
    pub fn message(&self) -> (r: String)
        ensures
            r@ == regen_error_text(*self),
    {
        match self {
            RegenError::Expr(x) => {
                let mut r = owned("expression error: ");
                r.append(x.message().as_str());
                r
            },
            RegenError::BadReference(me, target, what) => bad_ref_text(me, target, what),
            RegenError::Other(s) => s.clone(),
        }
    }
}

/// How the history changed, for renumbering the references that features
/// hold to one another. A reference of `usize::MAX` points at a deleted
/// feature and stays so.
#[derive(Clone, Copy, Debug)]
pub enum Renumber {
    /// A feature went in at this index; it and those after it move up.
    Insert(usize),
    /// The feature at this index was removed; those after it move down.
    Remove(usize),
    /// The feature at `.0` moved to `.1`; those between shift over.
    Move(usize, usize),
}

/// Where a reference to feature `old` points after the change `m`;
/// `None` when its target was removed.
pub open spec fn renumbered(m: Renumber, old: usize) -> Option<usize> {
    if old == usize::MAX {
        Some(old)
    } else {
        match m {
            Renumber::Insert(at) => Some(if old >= at { (old + 1) as usize } else { old }),
            Renumber::Remove(idx) => if old < idx {
                Some(old)
            } else if old == idx {
                None
            } else {
                Some((old - 1) as usize)
            },
            Renumber::Move(from, to) => Some(
                if old == from {
                    to
                } else if from < to && old > from && old <= to {
                    (old - 1) as usize
                } else if to < from && old >= to && old < from {
                    (old + 1) as usize
                } else {
                    old
                },
            ),
        }
    }
}

/// Where a reference to feature `old` points after the change `m`.
pub fn renumber(m: &Renumber, old: usize) -> (r: Option<usize>)
    ensures
        r == renumbered(*m, old),
{
    if old == usize::MAX {
        return Some(old);
    }
    match *m {
        Renumber::Insert(at) => Some(if old >= at { old + 1 } else { old }),
        Renumber::Remove(idx) => if old < idx {
            Some(old)
        } else if old == idx {
            None
        } else {
            Some(old - 1)
        },
        Renumber::Move(from, to) => Some(
            if old == from {
                to
            } else if from < to && old > from && old <= to {
                old - 1
            } else if to < from && old >= to && old < from {
                old + 1
            } else {
                old
            },
        ),
    }
}

/// The keys of `ks` that the change `m` keeps, at their new places.
pub open spec fn moved_keys(ks: Set<usize>, m: Renumber) -> Set<usize> {
    Set::new(|n: usize| exists|k: usize| ks.contains(k) && renumbered(m, k) == Some(n))
}

/// Moves the entries of a map keyed by feature index, such as the colours
/// and materials of features, after the change `m`: each entry goes to its
/// feature's new place, and those of a removed feature are dropped.
pub fn remap_keys<V>(map: &mut HashMap<usize, V>, m: &Renumber)
    ensures
        final(map)@.dom() == moved_keys(old(map)@.dom(), *m),
        forall|n: usize|
            #[trigger] final(map)@.contains_key(n) ==> exists|k: usize|
                old(map)@.contains_key(k) && renumbered(*m, k) == Some(n) && final(map)@[n] == old(map)@[k],
        forall|k: usize|
            #[trigger] old(map)@.contains_key(k) && renumbered(*m, k) is Some && (forall|w: usize|
                old(map)@.contains_key(w) && renumbered(*m, w) == renumbered(*m, k) ==> w == k)
                ==> final(map)@.contains_key(renumbered(*m, k)->0) && final(map)@[renumbered(*m, k)->0]
                == old(map)@[k],
{
    broadcast use vstd::std_specs::hash::group_hash_axioms;

    let ghost orig = map@;
    let mut ks: Vec<usize> = Vec::new();
    for k in it: map.keys()
        invariant
            it.seq().unref().to_set() == orig.dom(),
            it.seq().no_duplicates(),
            it.seq().len() == orig.dom().len(),
            orig.dom().finite(),
            ks@ == it.seq().take(it.index() as int).unref(),
            forall|a: int, b: int| 0 <= a < b < ks@.len() ==> ks@[a] != ks@[b],
            forall|a: int| 0 <= a < ks@.len() ==> orig.dom().contains(#[trigger] ks@[a]),
        ensures
            ks@.len() == orig.dom().len(),
            orig.dom().finite(),
            forall|a: int, b: int| 0 <= a < b < ks@.len() ==> ks@[a] != ks@[b],
            forall|a: int| 0 <= a < ks@.len() ==> orig.dom().contains(#[trigger] ks@[a]),
    {
        ks.push(*k);
        assert(ks@ =~= it.seq().take(it.index() as int + 1).unref());
        assert forall|a: int, b: int| 0 <= a < b < ks@.len() implies ks@[a] != ks@[b] by {
            assert(it.seq()[a] != it.seq()[b]);
        }
        assert(it.seq().unref().contains(*k));
    }
    proof {
        assert(ks@.no_duplicates());
        ks@.unique_seq_to_set();
        assert(ks@.to_set().subset_of(orig.dom()));
        vstd::set_lib::lemma_subset_equality(ks@.to_set(), orig.dom());
    }
    let mut old_map: HashMap<usize, V> = HashMap::new();
    std::mem::swap(&mut old_map, map);
    let mut i: usize = 0;
    while i < ks.len()
        invariant
            i <= ks@.len(),
            ks@.to_set() == orig.dom(),
            forall|a: int, b: int| 0 <= a < b < ks@.len() ==> ks@[a] != ks@[b],
            forall|k: usize| #[trigger] old_map@.contains_key(k) <==> (orig.contains_key(k) && !ks@.take(i as int).contains(k)),
            forall|k: usize| #[trigger] old_map@.contains_key(k) ==> old_map@[k] == orig[k],
            map@.dom() == moved_keys(ks@.take(i as int).to_set(), *m),
            forall|n: usize|
                #[trigger] map@.contains_key(n) ==> exists|k: usize|
                    orig.contains_key(k) && renumbered(*m, k) == Some(n) && map@[n] == orig[k],
        decreases ks@.len() - i,
    {
        let k = ks[i];
        proof {
            assert(ks@.to_set().contains(k));
            assert(!ks@.take(i as int).contains(k)) by {
                if ks@.take(i as int).contains(k) {
                    let j = choose|j: int| 0 <= j < i && ks@.take(i as int)[j] == k;
                    assert(ks@[j] == ks@[i as int]);
                }
            }
            assert(ks@.take(i + 1) =~= ks@.take(i as int).push(k));
        }
        let ghost ob = old_map@;
        let got = old_map.remove(&k);
        let ghost before = map@;
        assert(old_map@ == ob.remove(k));
        match got {
            Some(v) => {
                match renumber(m, k) {
                    Some(n) => {
                        map.insert(n, v);
                    },
                    None => {},
                }
            },
            None => {},
        }
        proof {
            let pre = ks@.take(i as int);
            let post = ks@.take(i + 1);
            assert(post =~= pre.push(k));
            assert forall|x: usize| #[trigger] old_map@.contains_key(x) <==> (orig.contains_key(x) && !post.contains(x)) by {
                assert(old_map@.contains_key(x) <==> (ob.contains_key(x) && x != k));
                assert(ob.contains_key(x) <==> (orig.contains_key(x) && !pre.contains(x)));
                if x == k {
                    assert(post[i as int] == x);
                }
                if post.contains(x) && x != k {
                    let j = choose|j: int| 0 <= j < post.len() && post[j] == x;
                    assert(j < i);
                    assert(pre[j] == x);
                }
                if pre.contains(x) {
                    let j = choose|j: int| 0 <= j < pre.len() && pre[j] == x;
                    assert(post[j] == x);
                }
            }
            assert(map@.dom() =~= moved_keys(post.to_set(), *m)) by {
                assert forall|n: usize| map@.dom().contains(n) implies moved_keys(post.to_set(), *m).contains(n) by {
                    if before.contains_key(n) && (renumbered(*m, k) != Some(n)) {
                        let w = choose|w: usize| pre.to_set().contains(w) && renumbered(*m, w) == Some(n);
                        assert(post.to_set().contains(w)) by {
                            let j = choose|j: int| 0 <= j < pre.len() && pre[j] == w;
                            assert(post[j] == w);
                        }
                    } else {
                        assert(post[i as int] == k);
                        assert(post.to_set().contains(k));
                    }
                }
                assert forall|n: usize| moved_keys(post.to_set(), *m).contains(n) implies map@.dom().contains(n) by {
                    let w = choose|w: usize| post.to_set().contains(w) && renumbered(*m, w) == Some(n);
                    let j = choose|j: int| 0 <= j < post.len() && post[j] == w;
                    if j < i {
                        assert(pre[j] == w);
                        assert(pre.to_set().contains(w));
                        assert(moved_keys(pre.to_set(), *m).contains(n));
                    } else {
                        assert(w == k);
                    }
                }
            }
        }
        i = i + 1;
    }
    proof {
        assert(ks@.take(ks@.len() as int) =~= ks@);
        assert forall|k: usize|
            #[trigger] orig.contains_key(k) && renumbered(*m, k) is Some && (forall|w: usize|
                orig.contains_key(w) && renumbered(*m, w) == renumbered(*m, k) ==> w == k)
            implies map@.contains_key(renumbered(*m, k)->0) && map@[renumbered(*m, k)->0] == orig[k] by {
            let n = renumbered(*m, k)->0;
            assert(moved_keys(orig.dom(), *m).contains(n));
            let w = choose|w: usize| orig.contains_key(w) && renumbered(*m, w) == Some(n) && map@[n] == orig[w];
            assert(w == k);
        }
    }
}

/// Whether feature `idx` sits at or after the rollback bar, so that it is
/// held back and not computed.
pub open spec fn held_back(rollback: Option<usize>, idx: usize) -> bool {
    rollback matches Some(r) && idx >= r
}

pub fn rolled_back(rollback: Option<usize>, idx: FeatureId) -> (r: bool)
    ensures
        r == held_back(rollback, idx),
{
    match rollback {
        Some(r) => idx >= r,
        None => false,
    }
}

/// Where a feature added to a history of `len` features goes, and the bar
/// after it: at the bar while the history is rolled back, the bar moving
/// past it; at the end otherwise.
pub fn add_position(rollback: Option<usize>, len: usize) -> (r: (usize, Option<usize>))
    requires
        len < usize::MAX,
    ensures
        r == (match rollback {
            Some(b) if b < len => (b, Some((b + 1) as usize)),
            _ => (len, rollback),
        }),
{
    match rollback {
        Some(b) => if b < len {
            (b, Some(b + 1))
        } else {
            (len, rollback)
        },
        None => (len, rollback),
    }
}

/// The rollback bar after feature `idx` is removed, `len` features being
/// left: a bar after it moves down with it; a bar on it stays, unless
/// nothing is left behind it.
pub fn bar_after_remove(rollback: Option<usize>, idx: usize, len: usize) -> (r: Option<usize>)
    ensures
        r == (match rollback {
            Some(b) => if b > idx {
                Some((b - 1) as usize)
            } else if b == idx {
                if b < len { Some(b) } else { None }
            } else {
                Some(b)
            },
            None => None,
        }),
{
    match rollback {
        Some(b) => if b > idx {
            Some(b - 1)
        } else if b == idx {
            if b < len {
                Some(b)
            } else {
                None
            }
        } else {
            Some(b)
        },
        None => None,
    }
}

/// Moving the rollback bar to `at` in a history of `len` features: the new
/// bar (none when `at` is past the end) and the first feature to compute
/// again, or `None` when the bar does not move.
pub open spec fn moved_bar(rollback: Option<usize>, at: Option<usize>, len: usize) -> (Option<usize>, Option<usize>) {
    let new_bar = match at {
        Some(b) => if b < len { Some(b) } else { None },
        None => None,
    };
    (new_bar, if new_bar == rollback {
        None
    } else {
        Some(
            match (rollback, new_bar) {
                (Some(a), Some(b)) => if a < b { a } else { b },
                (Some(a), None) => a,
                (None, Some(b)) => b,
                (None, None) => 0usize,
            },
        )
    })
}

/// The bar and the first feature to compute again, as `moved_bar`.
pub fn bar_move(rollback: Option<usize>, at: Option<usize>, len: usize) -> (r: (Option<usize>, Option<usize>))
    ensures
        r == moved_bar(rollback, at, len),
{
    let new_bar = match at {
        Some(b) => if b < len {
            Some(b)
        } else {
            None
        },
        None => None,
    };
    let same = match (rollback, new_bar) {
        (Some(a), Some(b)) => a == b,
        (None, None) => true,
        _ => false,
    };
    if same {
        return (new_bar, None);
    }
    let first = match (rollback, new_bar) {
        (Some(a), Some(b)) => if a < b {
            a
        } else {
            b
        },
        (Some(a), None) => a,
        (None, Some(b)) => b,
        (None, None) => 0,
    };
    (new_bar, Some(first))
}

/// Where a reference to feature `old` points once the feature at `from`
/// has moved to `to`.
pub open spec fn moved_to(from: usize, to: usize, old: usize) -> usize {
    match renumbered(Renumber::Move(from, to), old) {
        Some(v) => v,
        None => old,
    }
}

/// The position, before a move of `from` to `to`, of the feature that
/// stands at position `i` after it.
pub open spec fn came_from(from: usize, to: usize, i: int) -> int {
    if i == to as int {
        from as int
    } else if from < to && from <= i < to {
        i + 1
    } else if to < from && to < i <= from {
        i - 1
    } else {
        i
    }
}

/// References `r`, once renumbered for the move, name a feature at or after
/// position `i`.
pub open spec fn uses_later(r: Seq<usize>, from: usize, to: usize, i: int) -> bool {
    exists|j: int| 0 <= j < r.len() && moved_to(from, to, r[j]) != usize::MAX && moved_to(from, to, r[j]) >= i
}

/// The first position from `i` on whose feature, after the move, uses a
/// feature at or after itself.
pub open spec fn first_blocked(refs: Seq<Seq<usize>>, from: usize, to: usize, i: int) -> Option<int>
    decreases refs.len() - i,
{
    if i < 0 || i >= refs.len() {
        None
    } else if uses_later(refs[came_from(from, to, i)], from, to, i) {
        Some(i)
    } else {
        first_blocked(refs, from, to, i + 1)
    }
}

/// Whether a move of the feature at `from` to `to` may go ahead: after it,
/// no feature may use one that comes at or after it. `refs[k]` holds the
/// references of the feature at `k` before the move. The answer is the
/// position, after the move, of the first feature that would break the
/// rule, or `None` when there is none.
pub fn move_blocker(refs: &Vec<Vec<usize>>, from: usize, to: usize) -> (r: Option<usize>)
    requires
        from < refs@.len(),
        to < refs@.len(),
    ensures
        match r {
            Some(i) => first_blocked(refs@.map_values(|v: Vec<usize>| v@), from, to, 0) == Some(i as int),
            None => first_blocked(refs@.map_values(|v: Vec<usize>| v@), from, to, 0) is None,
        },
{
    let ghost rs = refs@.map_values(|v: Vec<usize>| v@);
    let n = refs.len();
    let mut i: usize = 0;
    while i < n
        invariant
            n == refs@.len(),
            from < n,
            to < n,
            rs == refs@.map_values(|v: Vec<usize>| v@),
            i <= n,
            first_blocked(rs, from, to, 0) == first_blocked(rs, from, to, i as int),
        decreases n - i,
    {
        let k = if i == to {
            from
        } else if from < to && from <= i && i < to {
            i + 1
        } else if to < from && to < i && i <= from {
            i - 1
        } else {
            i
        };
        assert(k as int == came_from(from, to, i as int));
        let r = &refs[k];
        assert(rs[k as int] == r@);
        let mut j: usize = 0;
        let mut found = false;
        while j < r.len()
            invariant
                j <= r@.len(),
                !found ==> forall|q: int| 0 <= q < j ==> !(moved_to(from, to, r@[q]) != usize::MAX && moved_to(
                    from,
                    to,
                    r@[q],
                ) >= i),
                found ==> uses_later(r@, from, to, i as int),
            decreases r@.len() - j,
        {
            let v = match renumber(&Renumber::Move(from, to), r[j]) {
                Some(v) => v,
                None => r[j],
            };
            assert(v == moved_to(from, to, r@[j as int]));
            if v != usize::MAX && v >= i {
                found = true;
                assert(uses_later(r@, from, to, i as int));
            }
            j = j + 1;
        }
        if found {
            return Some(i);
        }
        i = i + 1;
    }
    None
}

// ---------------------------------------------------------------- undo and redo

/// How many edits can be undone.
pub const MAX_UNDO: usize = 200;

/// The undo list after an edit saves the state `cur`: the oldest state is
/// let go once more than `MAX_UNDO` are kept.
pub open spec fn saved<S>(u: Seq<S>, cur: S) -> Seq<S> {
    if u.len() + 1 > MAX_UNDO {
        u.push(cur).drop_first()
    } else {
        u.push(cur)
    }
}

/// Undo from the lists `u`, `r` and the current state `c`: the last saved
/// state comes back and the current one goes onto the redo list.
pub open spec fn undone<S>(h: (Seq<S>, Seq<S>, S)) -> (Seq<S>, Seq<S>, S) {
    let (u, r, c) = h;
    if u.len() == 0 {
        h
    } else {
        (u.drop_last(), r.push(c), u.last())
    }
}

/// Redo, the mirror of `undone`.
pub open spec fn redone<S>(h: (Seq<S>, Seq<S>, S)) -> (Seq<S>, Seq<S>, S) {
    let (u, r, c) = h;
    if r.len() == 0 {
        h
    } else {
        (u.push(c), r.drop_last(), r.last())
    }
}

/// The states an editor can go back to and forward to again.
pub struct History<S> {
    undo: Vec<S>,
    redo: Vec<S>,
}

impl<S> History<S> {
    /// The saved states, oldest first.
    pub closed spec fn undo_list(&self) -> Seq<S> {
        self.undo@
    }

    /// The undone states, the next one to redo last.
    pub closed spec fn redo_list(&self) -> Seq<S> {
        self.redo@
    }

    pub fn new() -> (h: History<S>)
        ensures
            h.undo_list() == Seq::<S>::empty(),
            h.redo_list() == Seq::<S>::empty(),
    {
        History { undo: Vec::new(), redo: Vec::new() }
    }

    /// Saves the state before an edit. An edit makes what was undone
    /// unreachable, so the redo list is emptied.
    pub fn record(&mut self, cur: S)
        ensures
            final(self).undo_list() == saved(old(self).undo_list(), cur),
            final(self).redo_list() == Seq::<S>::empty(),
    {
        self.undo.push(cur);
        self.redo.clear();
        if self.undo.len() > MAX_UNDO {
            self.undo.remove(0);
        }
        proof {
            let u = old(self).undo@.push(cur);
            if u.len() > MAX_UNDO {
                assert(self.undo@ =~= u.drop_first());
            }
        }
    }

    pub fn can_undo(&self) -> (r: bool)
        ensures
            r == (self.undo_list().len() > 0),
    {
        self.undo.len() > 0
    }

    pub fn can_redo(&self) -> (r: bool)
        ensures
            r == (self.redo_list().len() > 0),
    {
        self.redo.len() > 0
    }

    /// Goes back one edit: `cur` becomes the last saved state, and the
    /// state it held is kept for redo. Nothing happens when nothing is saved.
    pub fn undo(&mut self, cur: &mut S) -> (done: bool)
        ensures
            done == (old(self).undo_list().len() > 0),
            (final(self).undo_list(), final(self).redo_list(), *final(cur)) == undone(
                (old(self).undo_list(), old(self).redo_list(), *old(cur)),
            ),
    {
        match self.undo.pop() {
            Some(s) => {
                let mut s = s;
                std::mem::swap(cur, &mut s);
                self.redo.push(s);
                true
            },
            None => false,
        }
    }

    /// Goes forward again one undone edit.
    pub fn redo(&mut self, cur: &mut S) -> (done: bool)
        ensures
            done == (old(self).redo_list().len() > 0),
            (final(self).undo_list(), final(self).redo_list(), *final(cur)) == redone(
                (old(self).undo_list(), old(self).redo_list(), *old(cur)),
            ),
    {
        match self.redo.pop() {
            Some(s) => {
                let mut s = s;
                std::mem::swap(cur, &mut s);
                self.undo.push(s);
                true
            },
            None => false,
        }
    }
}

} // verus!
