//! The feature history as the document keeps it: each feature with its name
//! and the features it refers to, and the rollback bar. Adding, removing and
//! moving a feature renumber every reference; a move that would put a
//! feature before one it uses is refused.

use vstd::prelude::*;
use crate::document::{
    add_position, bar_after_remove, bar_move, came_from, first_blocked, move_blocker, moved_bar, moved_keys, remap_keys,
    renumber, renumbered, redone, saved, undone, History, Renumber,
};
use std::collections::HashMap;
use crate::features::moved_ref;
use crate::text::owned;

verus! {

/// One feature of the history: the name it is shown by, the features it
/// refers to, and whether it is suppressed.
pub struct Entry {
    pub name: String,
    pub refs: Vec<usize>,
    pub suppressed: bool,
}

pub open spec fn entry_view(e: Entry) -> (Seq<char>, Seq<usize>, bool) {
    (e.name@, e.refs@, e.suppressed)
}

pub open spec fn entries_view(es: Seq<Entry>) -> Seq<(Seq<char>, Seq<usize>, bool)> {
    es.map_values(|e: Entry| entry_view(e))
}

/// The references after the change `m`; one whose feature is gone becomes
/// the deleted mark `usize::MAX`.
pub open spec fn moved_refs(r: Seq<usize>, m: Renumber) -> Seq<usize> {
    r.map_values(|x: usize| moved_ref(m, x))
}

/// Whether the change `m` breaks one of the references: its feature is gone.
pub open spec fn breaks(r: Seq<usize>, m: Renumber) -> bool {
    exists|j: int| 0 <= j < r.len() && renumbered(m, #[trigger] r[j]) is None
}

/// Every feature after the change `m`.
pub open spec fn renumbered_all(vs: Seq<(Seq<char>, Seq<usize>, bool)>, m: Renumber) -> Seq<(Seq<char>, Seq<usize>, bool)> {
    vs.map_values(|v: (Seq<char>, Seq<usize>, bool)| (v.0, moved_refs(v.1, m), v.2))
}

/// The positions, in order, of the features that the change `m` breaks.
pub open spec fn broken_at(vs: Seq<(Seq<char>, Seq<usize>, bool)>, m: Renumber) -> Seq<usize>
    decreases vs.len(),
{
    if vs.len() == 0 {
        Seq::empty()
    } else if breaks(vs.last().1, m) {
        broken_at(vs.drop_last(), m).push((vs.len() - 1) as usize)
    } else {
        broken_at(vs.drop_last(), m)
    }
}

/// The features in order after the one at `from` moved to `to`.
pub open spec fn moved_order<A>(vs: Seq<A>, from: int, to: int) -> Seq<A> {
    vs.remove(from).insert(to, vs[from])
}

/// The references of each feature.
pub open spec fn refs_view(vs: Seq<(Seq<char>, Seq<usize>, bool)>) -> Seq<Seq<usize>> {
    vs.map_values(|v: (Seq<char>, Seq<usize>, bool)| v.1)
}

/// The answer to a move that would put the feature named `name` before one
/// it uses.
pub open spec fn comes_before(name: Seq<char>) -> Seq<char> {
    name + " would come before a feature it uses"@
}

/// The first blocked position lies from `j` on, inside the history.
proof fn lemma_first_blocked_in(refs: Seq<Seq<usize>>, from: usize, to: usize, j: int, i: int)
    requires
        first_blocked(refs, from, to, j) == Some(i),
    ensures
        j <= i < refs.len(),
    decreases refs.len() - j,
{
    if 0 <= j < refs.len() && first_blocked(refs, from, to, j) != Some(j) {
        lemma_first_blocked_in(refs, from, to, j + 1, i);
    }
}

/// A copy of the references.
fn copy_refs(r: &Vec<usize>) -> (v: Vec<usize>)
    ensures
        v@ == r@,
{
    let mut v: Vec<usize> = Vec::new();
    let mut j: usize = 0;
    while j < r.len()
        invariant
            j <= r@.len(),
            v@ == r@.take(j as int),
        decreases r@.len() - j,
    {
        v.push(r[j]);
        assert(v@ =~= r@.take(j + 1));
        j = j + 1;
    }
    assert(r@.take(r@.len() as int) =~= r@);
    v
}

/// The references of one feature after the change `m`, and whether one broke.
fn remap_refs(r: &Vec<usize>, m: &Renumber) -> (out: (Vec<usize>, bool))
    ensures
        out.0@ == moved_refs(r@, *m),
        out.1 == breaks(r@, *m),
{
    let mut v: Vec<usize> = Vec::new();
    let mut broke = false;
    let mut j: usize = 0;
    while j < r.len()
        invariant
            j <= r@.len(),
            v@ == moved_refs(r@.take(j as int), *m),
            broke == exists|q: int| 0 <= q < j && renumbered(*m, #[trigger] r@[q]) is None,
        decreases r@.len() - j,
    {
        match renumber(m, r[j]) {
            Some(n) => v.push(n),
            None => {
                v.push(usize::MAX);
                broke = true;
            },
        }
        assert(v@ =~= moved_refs(r@.take(j + 1), *m));
        j = j + 1;
    }
    assert(r@.take(r@.len() as int) =~= r@);
    (v, broke)
}

/// Every feature after the change `m`, and the positions of those that it
/// breaks.
fn remap_all(es: &Vec<Entry>, m: &Renumber) -> (out: (Vec<Entry>, Vec<usize>))
    ensures
        entries_view(out.0@) == renumbered_all(entries_view(es@), *m),
        out.1@ == broken_at(entries_view(es@), *m),
{
    let ghost vs = entries_view(es@);
    let mut out: Vec<Entry> = Vec::new();
    let mut broken: Vec<usize> = Vec::new();
    let mut i: usize = 0;
    while i < es.len()
        invariant
            i <= es@.len(),
            vs == entries_view(es@),
            entries_view(out@) == renumbered_all(vs.take(i as int), *m),
            broken@ == broken_at(vs.take(i as int), *m),
        decreases es@.len() - i,
    {
        let (refs, broke) = remap_refs(&es[i].refs, m);
        proof {
            assert(vs[i as int] == entry_view(es@[i as int]));
            assert(vs.take(i + 1).drop_last() =~= vs.take(i as int));
        }
        if broke {
            broken.push(i);
        }
        let name = es[i].name.clone();
        let ghost before = out@;
        let suppressed = es[i].suppressed;
        out.push(Entry { name, refs, suppressed });
        proof {
            assert(out@ == before.push(out@.last()));
            assert(entry_view(out@.last()) == (vs[i as int].0, moved_refs(vs[i as int].1, *m), vs[i as int].2));
            assert(entries_view(out@) =~= entries_view(before).push(entry_view(out@.last())));
            assert(renumbered_all(vs.take(i + 1), *m) =~= renumbered_all(vs.take(i as int), *m).push(
                (vs[i as int].0, moved_refs(vs[i as int].1, *m), vs[i as int].2),
            ));
        }
        i = i + 1;
    }
    assert(vs.take(es@.len() as int) =~= vs);
    (out, broken)
}

/// The history: its features in order and the rollback bar, from which on
/// features are held back.
pub struct Timeline {
    pub entries: Vec<Entry>,
    pub rollback: Option<usize>,
}

impl Timeline {
    /// Adds a feature. While the history is rolled back it goes in at the
    /// bar and every reference is renumbered for the insert, its own too,
    /// and the bar moves past it; otherwise it goes at the end. The answer
    /// is its position.
    pub fn add_feature(&mut self, e: Entry) -> (idx: usize)
        requires
            old(self).entries@.len() < usize::MAX,
        ensures
            ({
                let vs = entries_view(old(self).entries@);
                let n = vs.len();
                match old(self).rollback {
                    Some(b) if b < n => idx == b && final(self).rollback == Some((b + 1) as usize)
                        && entries_view(final(self).entries@) == renumbered_all(
                        vs.insert(b as int, entry_view(e)),
                        Renumber::Insert(b),
                    ),
                    _ => idx == n && final(self).rollback == old(self).rollback && entries_view(
                        final(self).entries@,
                    ) == vs.push(entry_view(e)),
                }
            }),
    {
        let ghost vs = entries_view(self.entries@);
        let n = self.entries.len();
        let (at, bar) = add_position(self.rollback, n);
        if at < n {
            let ghost ev = entry_view(e);
            self.entries.insert(at, e);
            assert(entries_view(self.entries@) =~= vs.insert(at as int, ev));
            let (out, _) = remap_all(&self.entries, &Renumber::Insert(at));
            self.entries = out;
        } else {
            let ghost ev = entry_view(e);
            self.entries.push(e);
            assert(entries_view(self.entries@) =~= vs.push(ev));
        }
        self.rollback = bar;
        at
    }

    /// Removes the feature at `idx`; every reference is renumbered, one to
    /// the removed feature becoming the deleted mark. The answer is the
    /// positions, after the removal, of the features whose references broke.
    /// A position past the end changes nothing.
    pub fn remove_feature(&mut self, idx: usize) -> (broken: Vec<usize>)
        ensures
            ({
                let vs = entries_view(old(self).entries@);
                if idx >= vs.len() {
                    broken@.len() == 0 && entries_view(final(self).entries@) == vs && final(self).rollback
                        == old(self).rollback
                } else {
                    let left = vs.remove(idx as int);
                    &&& entries_view(final(self).entries@) == renumbered_all(left, Renumber::Remove(idx))
                    &&& broken@ == broken_at(left, Renumber::Remove(idx))
                    &&& final(self).rollback == match old(self).rollback {
                        Some(b) => if b > idx {
                            Some((b - 1) as usize)
                        } else if b == idx {
                            if b < left.len() { Some(b) } else { None }
                        } else {
                            Some(b)
                        },
                        None => None,
                    }
                }
            }),
    {
        let ghost vs = entries_view(self.entries@);
        if idx >= self.entries.len() {
            return Vec::new();
        }
        self.entries.remove(idx);
        assert(entries_view(self.entries@) =~= vs.remove(idx as int));
        self.rollback = bar_after_remove(self.rollback, idx, self.entries.len());
        let (out, broken) = remap_all(&self.entries, &Renumber::Remove(idx));
        self.entries = out;
        broken
    }

    /// Moves the feature at `from` to `to`, renumbering every reference. A
    /// move that would put a feature before something it uses is refused
    /// with the name of the first such feature, and changes nothing.
    /// Positions past the end, or `from == to`, change nothing.
    pub fn move_feature(&mut self, from: usize, to: usize) -> (r: Result<(), String>)
        ensures
            final(self).rollback == old(self).rollback,
            ({
                let vs = entries_view(old(self).entries@);
                let n = vs.len();
                if from >= n || to >= n || from == to {
                    r is Ok && entries_view(final(self).entries@) == vs
                } else {
                    match first_blocked(refs_view(vs), from, to, 0) {
                        Some(i) => r matches Err(msg) && msg@ == comes_before(vs[came_from(from, to, i)].0)
                            && entries_view(final(self).entries@) == vs,
                        None => r is Ok && entries_view(final(self).entries@) == renumbered_all(
                            moved_order(vs, from as int, to as int),
                            Renumber::Move(from, to),
                        ),
                    }
                }
            }),
    {
        let ghost vs = entries_view(self.entries@);
        let n = self.entries.len();
        if from >= n || to >= n || from == to {
            return Ok(());
        }
        let mut refs: Vec<Vec<usize>> = Vec::new();
        let mut k: usize = 0;
        while k < n
            invariant
                n == self.entries@.len(),
                vs == entries_view(self.entries@),
                k <= n,
                refs@.map_values(|v: Vec<usize>| v@) == refs_view(vs).take(k as int),
            decreases n - k,
        {
            let c = copy_refs(&self.entries[k].refs);
            let ghost before = refs@;
            refs.push(c);
            proof {
                assert(vs[k as int] == entry_view(self.entries@[k as int]));
                assert(refs@.map_values(|v: Vec<usize>| v@) =~= before.map_values(|v: Vec<usize>| v@).push(c@));
                assert(refs_view(vs).take(k + 1) =~= refs_view(vs).take(k as int).push(vs[k as int].1));
            }
            k = k + 1;
        }
        assert(refs_view(vs).take(n as int) =~= refs_view(vs));
        match move_blocker(&refs, from, to) {
            Some(i) => {
                proof {
                    lemma_first_blocked_in(refs_view(vs), from, to, 0, i as int);
                }
                let c = if i == to {
                    from
                } else if from < to && from <= i && i < to {
                    i + 1
                } else if to < from && to < i && i <= from {
                    i - 1
                } else {
                    i
                };
                assert(c as int == came_from(from, to, i as int));
                assert(vs[c as int] == entry_view(self.entries@[c as int]));
                let mut msg = self.entries[c].name.clone();
                msg.append(" would come before a feature it uses");
                return Err(msg);
            },
            None => {},
        }
        let e = self.entries.remove(from);
        let ghost ev = vs[from as int];
        assert(ev == entry_view(e));
        self.entries.insert(to, e);
        assert(entries_view(self.entries@) =~= moved_order(vs, from as int, to as int));
        let (out, _) = remap_all(&self.entries, &Renumber::Move(from, to));
        self.entries = out;
        Ok(())
    }

    /// Moves the rollback bar to `at` (`None`, or a place past the end,
    /// lets the whole history run). The answer is the first feature to
    /// compute again, or `None` when the bar did not move.
    pub fn set_rollback(&mut self, at: Option<usize>) -> (first: Option<usize>)
        ensures
            final(self).rollback == moved_bar(old(self).rollback, at, old(self).entries@.len() as usize).0,
            first == moved_bar(old(self).rollback, at, old(self).entries@.len() as usize).1,
            entries_view(final(self).entries@) == entries_view(old(self).entries@),
    {
        let (bar, first) = bar_move(self.rollback, at, self.entries.len());
        self.rollback = bar;
        first
    }
}

/// The history as plain values: its features and the bar.
pub open spec fn timeline_view(t: Timeline) -> (Seq<(Seq<char>, Seq<usize>, bool)>, Option<usize>) {
    (entries_view(t.entries@), t.rollback)
}

/// Saved histories as plain values.
pub open spec fn timeline_views(s: Seq<Timeline>) -> Seq<(Seq<(Seq<char>, Seq<usize>, bool)>, Option<usize>)> {
    s.map_values(|t: Timeline| timeline_view(t))
}

impl Timeline {
    /// A copy of the history.
    pub fn copy(&self) -> (t: Timeline)
        ensures
            timeline_view(t) == timeline_view(*self),
    {
        let mut es: Vec<Entry> = Vec::new();
        let mut i: usize = 0;
        while i < self.entries.len()
            invariant
                i <= self.entries@.len(),
                entries_view(es@) == entries_view(self.entries@).take(i as int),
            decreases self.entries@.len() - i,
        {
            let e = &self.entries[i];
            let name = e.name.clone();
            let refs = copy_refs(&e.refs);
            let ghost before = es@;
            es.push(Entry { name, refs, suppressed: e.suppressed });
            proof {
                assert(es@ == before.push(es@.last()));
                assert(entries_view(es@) =~= entries_view(before).push(entry_view(es@.last())));
                assert(entries_view(self.entries@).take(i + 1) =~= entries_view(self.entries@).take(i as int).push(
                    entry_view(self.entries@[i as int]),
                ));
            }
            i = i + 1;
        }
        assert(entries_view(self.entries@).take(self.entries@.len() as int) =~= entries_view(self.entries@));
        Timeline { entries: es, rollback: self.rollback }
    }
}

/// Saving a state and then viewing the list is viewing and then saving.
proof fn lemma_saved_views(u: Seq<Timeline>, c: Timeline)
    ensures
        timeline_views(saved(u, c)) == saved(timeline_views(u), timeline_view(c)),
{
    assert(timeline_views(u.push(c)) =~= timeline_views(u).push(timeline_view(c)));
    if u.len() + 1 > crate::document::MAX_UNDO {
        assert(timeline_views(u.push(c).drop_first()) =~= timeline_views(u).push(timeline_view(c)).drop_first());
    }
}

/// A document's feature history with the per-feature colours `A` and
/// materials `M`, and the states that undo and redo go back and forth
/// between. Each edit that changes the history saves the state before it
/// as one undo step; an edit that changes nothing saves none. Colours and
/// materials follow their features but are not part of the undo steps.
pub struct Document<A, M> {
    pub timeline: Timeline,
    pub appearance: HashMap<usize, A>,
    pub material: HashMap<usize, M>,
    pub history: History<Timeline>,
}

/// The keys of a map after a feature was added at `idx` in a history of
/// `n`: shifted past it while the history was rolled back, else unchanged.
pub open spec fn keys_after_add(ks: Set<usize>, rollback: Option<usize>, n: nat) -> Set<usize> {
    match rollback {
        Some(b) if b < n => moved_keys(ks, Renumber::Insert(b)),
        _ => ks,
    }
}

impl<A, M> Document<A, M> {
    /// An empty document: no features, no bar, nothing to undo.
    pub fn new() -> (d: Document<A, M>)
        ensures
            d.timeline.entries@.len() == 0,
            d.timeline.rollback is None,
            d.appearance@.len() == 0,
            d.material@.len() == 0,
            d.history.undo_list().len() == 0,
            d.history.redo_list().len() == 0,
    {
        Document {
            timeline: Timeline { entries: Vec::new(), rollback: None },
            appearance: HashMap::new(),
            material: HashMap::new(),
            history: History::new(),
        }
    }

    /// Adds a feature named `name` that uses the features `refs`, not
    /// suppressed, as `Timeline::add_feature` places it; colours and
    /// materials follow the renumbering. One undo step is saved and redo is
    /// no longer possible.
    pub fn add_feature(&mut self, name: String, refs: Vec<usize>) -> (idx: usize)
        requires
            old(self).timeline.entries@.len() < usize::MAX,
        ensures
            ({
                let vs = entries_view(old(self).timeline.entries@);
                let n = vs.len();
                let e = (name@, refs@, false);
                match old(self).timeline.rollback {
                    Some(b) if b < n => idx == b && final(self).timeline.rollback == Some((b + 1) as usize)
                        && entries_view(final(self).timeline.entries@) == renumbered_all(
                        vs.insert(b as int, e),
                        Renumber::Insert(b),
                    ),
                    _ => idx == n && final(self).timeline.rollback == old(self).timeline.rollback && entries_view(
                        final(self).timeline.entries@,
                    ) == vs.push(e),
                }
            }),
            final(self).appearance@.dom() == keys_after_add(
                old(self).appearance@.dom(),
                old(self).timeline.rollback,
                old(self).timeline.entries@.len(),
            ),
            final(self).material@.dom() == keys_after_add(
                old(self).material@.dom(),
                old(self).timeline.rollback,
                old(self).timeline.entries@.len(),
            ),
            timeline_views(final(self).history.undo_list()) == saved(
                timeline_views(old(self).history.undo_list()),
                timeline_view(old(self).timeline),
            ),
            final(self).history.redo_list().len() == 0,
    {
        let before = self.timeline.copy();
        let n = self.timeline.entries.len();
        let rolled = match self.timeline.rollback {
            Some(b) => b < n,
            None => false,
        };
        let idx = self.timeline.add_feature(Entry { name, refs, suppressed: false });
        if rolled {
            remap_keys(&mut self.appearance, &Renumber::Insert(idx));
            remap_keys(&mut self.material, &Renumber::Insert(idx));
        }
        let ghost u = self.history.undo_list();
        self.history.record(before);
        proof {
            lemma_saved_views(u, before);
        }
        idx
    }

    /// Removes the feature at `idx`, as `Timeline::remove_feature`; colours
    /// and materials follow, those of the removed feature dropped. A real
    /// removal saves one undo step; a position past the end changes nothing
    /// and saves none.
    pub fn remove_feature(&mut self, idx: usize) -> (broken: Vec<usize>)
        ensures
            ({
                let vs = entries_view(old(self).timeline.entries@);
                if idx >= vs.len() {
                    &&& broken@.len() == 0
                    &&& timeline_view(final(self).timeline) == timeline_view(old(self).timeline)
                    &&& final(self).appearance@ == old(self).appearance@
                    &&& final(self).material@ == old(self).material@
                    &&& final(self).history.undo_list() == old(self).history.undo_list()
                    &&& final(self).history.redo_list() == old(self).history.redo_list()
                } else {
                    let left = vs.remove(idx as int);
                    &&& entries_view(final(self).timeline.entries@) == renumbered_all(left, Renumber::Remove(idx))
                    &&& broken@ == broken_at(left, Renumber::Remove(idx))
                    &&& final(self).timeline.rollback == match old(self).timeline.rollback {
                        Some(b) => if b > idx {
                            Some((b - 1) as usize)
                        } else if b == idx {
                            if b < left.len() { Some(b) } else { None }
                        } else {
                            Some(b)
                        },
                        None => None,
                    }
                    &&& final(self).appearance@.dom() == moved_keys(old(self).appearance@.dom(), Renumber::Remove(idx))
                    &&& final(self).material@.dom() == moved_keys(old(self).material@.dom(), Renumber::Remove(idx))
                    &&& timeline_views(final(self).history.undo_list()) == saved(
                        timeline_views(old(self).history.undo_list()),
                        timeline_view(old(self).timeline),
                    )
                    &&& final(self).history.redo_list().len() == 0
                }
            }),
    {
        if idx >= self.timeline.entries.len() {
            return Vec::new();
        }
        let before = self.timeline.copy();
        let broken = self.timeline.remove_feature(idx);
        remap_keys(&mut self.appearance, &Renumber::Remove(idx));
        remap_keys(&mut self.material, &Renumber::Remove(idx));
        let ghost u = self.history.undo_list();
        self.history.record(before);
        proof {
            lemma_saved_views(u, before);
        }
        broken
    }

    /// Moves the feature at `from` to `to`, as `Timeline::move_feature`;
    /// colours and materials follow. A real move saves one undo step; a
    /// move that changes nothing, or is refused, changes nothing and saves
    /// none.
    pub fn move_feature(&mut self, from: usize, to: usize) -> (r: Result<(), String>)
        ensures
            final(self).timeline.rollback == old(self).timeline.rollback,
            ({
                let vs = entries_view(old(self).timeline.entries@);
                let n = vs.len();
                let still = {
                    &&& entries_view(final(self).timeline.entries@) == vs
                    &&& final(self).appearance@ == old(self).appearance@
                    &&& final(self).material@ == old(self).material@
                    &&& final(self).history.undo_list() == old(self).history.undo_list()
                    &&& final(self).history.redo_list() == old(self).history.redo_list()
                };
                if from >= n || to >= n || from == to {
                    r is Ok && still
                } else {
                    match first_blocked(refs_view(vs), from, to, 0) {
                        Some(i) => r matches Err(msg) && msg@ == comes_before(vs[came_from(from, to, i)].0) && still,
                        None => {
                            &&& r is Ok
                            &&& entries_view(final(self).timeline.entries@) == renumbered_all(
                                moved_order(vs, from as int, to as int),
                                Renumber::Move(from, to),
                            )
                            &&& final(self).appearance@.dom() == moved_keys(
                                old(self).appearance@.dom(),
                                Renumber::Move(from, to),
                            )
                            &&& final(self).material@.dom() == moved_keys(
                                old(self).material@.dom(),
                                Renumber::Move(from, to),
                            )
                            &&& timeline_views(final(self).history.undo_list()) == saved(
                                timeline_views(old(self).history.undo_list()),
                                timeline_view(old(self).timeline),
                            )
                            &&& final(self).history.redo_list().len() == 0
                        },
                    }
                }
            }),
    {
        let n = self.timeline.entries.len();
        if from >= n || to >= n || from == to {
            return Ok(());
        }
        let before = self.timeline.copy();
        match self.timeline.move_feature(from, to) {
            Err(m) => Err(m),
            Ok(()) => {
                remap_keys(&mut self.appearance, &Renumber::Move(from, to));
                remap_keys(&mut self.material, &Renumber::Move(from, to));
                let ghost u = self.history.undo_list();
                self.history.record(before);
                proof {
                    lemma_saved_views(u, before);
                }
                Ok(())
            },
        }
    }

    /// Moves the rollback bar, as `Timeline::set_rollback`, and answers the
    /// first feature to compute again. Moving it saves one undo step; when
    /// the bar stays where it is, nothing changes and none is saved.
    pub fn set_rollback(&mut self, at: Option<usize>) -> (first: Option<usize>)
        ensures
            ({
                let n = old(self).timeline.entries@.len() as usize;
                &&& final(self).timeline.rollback == moved_bar(old(self).timeline.rollback, at, n).0
                &&& first == moved_bar(old(self).timeline.rollback, at, n).1
                &&& entries_view(final(self).timeline.entries@) == entries_view(old(self).timeline.entries@)
                &&& final(self).appearance@ == old(self).appearance@
                &&& final(self).material@ == old(self).material@
                &&& if first is None {
                    &&& final(self).history.undo_list() == old(self).history.undo_list()
                    &&& final(self).history.redo_list() == old(self).history.redo_list()
                } else {
                    &&& timeline_views(final(self).history.undo_list()) == saved(
                        timeline_views(old(self).history.undo_list()),
                        timeline_view(old(self).timeline),
                    )
                    &&& final(self).history.redo_list().len() == 0
                }
            }),
    {
        let before = self.timeline.copy();
        let first = self.timeline.set_rollback(at);
        if first.is_some() {
            let ghost u = self.history.undo_list();
            self.history.record(before);
            proof {
                lemma_saved_views(u, before);
            }
        }
        first
    }

    /// Suppresses or restores the feature at `idx`, saving one undo step; a
    /// position past the end changes nothing and saves none.
    pub fn set_suppressed(&mut self, idx: usize, suppressed: bool)
        ensures
            final(self).timeline.rollback == old(self).timeline.rollback,
            final(self).appearance@ == old(self).appearance@,
            final(self).material@ == old(self).material@,
            ({
                let vs = entries_view(old(self).timeline.entries@);
                if idx < vs.len() {
                    &&& entries_view(final(self).timeline.entries@) == vs.update(
                        idx as int,
                        (vs[idx as int].0, vs[idx as int].1, suppressed),
                    )
                    &&& timeline_views(final(self).history.undo_list()) == saved(
                        timeline_views(old(self).history.undo_list()),
                        timeline_view(old(self).timeline),
                    )
                    &&& final(self).history.redo_list().len() == 0
                } else {
                    &&& entries_view(final(self).timeline.entries@) == vs
                    &&& final(self).history.undo_list() == old(self).history.undo_list()
                    &&& final(self).history.redo_list() == old(self).history.redo_list()
                }
            }),
    {
        if idx >= self.timeline.entries.len() {
            return;
        }
        let before = self.timeline.copy();
        let ghost vs = entries_view(self.timeline.entries@);
        let ghost es = self.timeline.entries@;
        let e = self.timeline.entries.remove(idx);
        let ghost ev = entry_view(e);
        self.timeline.entries.insert(idx, Entry { name: e.name, refs: e.refs, suppressed });
        proof {
            assert(es[idx as int] == e);
            assert(entries_view(self.timeline.entries@) =~= vs.update(idx as int, (ev.0, ev.1, suppressed)));
        }
        let ghost u = self.history.undo_list();
        self.history.record(before);
        proof {
            lemma_saved_views(u, before);
        }
    }

    pub fn can_undo(&self) -> (r: bool)
        ensures
            r == (self.history.undo_list().len() > 0),
    {
        self.history.can_undo()
    }

    pub fn can_redo(&self) -> (r: bool)
        ensures
            r == (self.history.redo_list().len() > 0),
    {
        self.history.can_redo()
    }

    /// Goes back one step: the history and the bar come back as they were
    /// before the last edit, and the present state is kept for redo.
    /// Colours and materials stay as they are.
    pub fn undo(&mut self) -> (done: bool)
        ensures
            done == (old(self).history.undo_list().len() > 0),
            (timeline_views(final(self).history.undo_list()), timeline_views(final(self).history.redo_list()),
                timeline_view(final(self).timeline)) == undone(
                (timeline_views(old(self).history.undo_list()), timeline_views(old(self).history.redo_list()),
                    timeline_view(old(self).timeline)),
            ),
            final(self).appearance@ == old(self).appearance@,
            final(self).material@ == old(self).material@,
    {
        let ghost u = self.history.undo_list();
        let ghost r = self.history.redo_list();
        let ghost c = self.timeline;
        let done = self.history.undo(&mut self.timeline);
        proof {
            if u.len() > 0 {
                assert(timeline_views(u.drop_last()) =~= timeline_views(u).drop_last());
                assert(timeline_views(r.push(c)) =~= timeline_views(r).push(timeline_view(c)));
            }
        }
        done
    }

    /// Goes forward again one undone step.
    pub fn redo(&mut self) -> (done: bool)
        ensures
            done == (old(self).history.redo_list().len() > 0),
            (timeline_views(final(self).history.undo_list()), timeline_views(final(self).history.redo_list()),
                timeline_view(final(self).timeline)) == redone(
                (timeline_views(old(self).history.undo_list()), timeline_views(old(self).history.redo_list()),
                    timeline_view(old(self).timeline)),
            ),
            final(self).appearance@ == old(self).appearance@,
            final(self).material@ == old(self).material@,
    {
        let ghost u = self.history.undo_list();
        let ghost r = self.history.redo_list();
        let ghost c = self.timeline;
        let done = self.history.redo(&mut self.timeline);
        proof {
            if r.len() > 0 {
                assert(timeline_views(r.drop_last()) =~= timeline_views(r).drop_last());
                assert(timeline_views(u.push(c)) =~= timeline_views(u).push(timeline_view(c)));
            }
        }
        done
    }
}

} // verus!
