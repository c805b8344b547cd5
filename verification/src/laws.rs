//! What holds across calls: the history's renumbering, rollback bar and
//! undo lists, and the text that stores a region choice; and what the
//! readers and writers mean: how expressions group, which names they use,
//! where a zip entry's bytes lie, and that shortened numbers keep their
//! value.

use vstd::prelude::*;
use crate::text::{decimal, lead_white, trail_white, trim, upper_text};
use crate::fonts::{builtin_list, builtin_view, catalogue_view, entry_views, lemma_dedup_views, lemma_sorted_views, sorted_by_key, FontEntry};
use crate::expr::{
    ascii_text, is_alpha, is_name_byte, is_space, name_end, p_atom, p_expr, p_expr_rest, p_power, p_term, p_term_rest, p_unary,
    parse_spec, skip_ws, names_in, names_of, Term,
};
use crate::zip::{le16, le32, read_spec, LOCAL_SIG, MAX_ENTRY};
use crate::post::trimmed_number;
use crate::text::{first_of, trim_end};
use crate::region_select::digits_value;
use crate::plane_ref::{is_datum_name, parses_as, short_text, PlaneRef};
use crate::document::{came_from, first_blocked, held_back, moved_bar, moved_to, redone, renumbered, saved, undone, uses_later, Renumber, MAX_UNDO};
use crate::region_select::{
    default_indices, in_order, in_use, increasing, joined, lemma_default_indices, lemma_in_order_below,
    lemma_decimal_reads_back, lemma_parse_decimal, lemma_selection_of_joined, selection, toggle_text, toggled,
};

verus! {

/// Inserting a feature at `at` and removing it again leaves every
/// reference where it was (a reference that the insert would push onto
/// the deleted mark `usize::MAX` aside).
pub proof fn insert_then_remove(at: usize, x: usize)
    requires
        x < usize::MAX - 1,
    ensures
        renumbered(Renumber::Insert(at), x) matches Some(y) && renumbered(Renumber::Remove(at), y) == Some(x),
{
}

/// Removing feature `idx` and inserting one at the same place gives back
/// every reference but those to the removed feature, which break. (A
/// reference already marked deleted stays so.)
pub proof fn remove_then_insert(idx: usize, x: usize)
    requires
        x < usize::MAX,
    ensures
        x == idx ==> renumbered(Renumber::Remove(idx), x) is None,
        x != idx ==> (renumbered(Renumber::Remove(idx), x) matches Some(y) && renumbered(Renumber::Insert(idx), y)
            == Some(x)),
{
}

/// Moving a feature from `from` to `to` and back leaves every reference
/// where it was. (Positions are below `usize::MAX`, the deleted mark.)
pub proof fn move_and_back(from: usize, to: usize, x: usize)
    requires
        from < usize::MAX,
        to < usize::MAX,
    ensures
        renumbered(Renumber::Move(from, to), x) matches Some(y) && renumbered(Renumber::Move(to, from), y)
            == Some(x),
{
}

/// A move within a history of `n` features keeps every reference to one
/// of them inside the history, and no two references to different
/// features end on the same one.
pub proof fn move_is_a_permutation(from: usize, to: usize, n: usize, x: usize, y: usize)
    requires
        from < n,
        to < n,
        x < n,
        y < n,
        x != y,
    ensures
        renumbered(Renumber::Move(from, to), x) matches Some(a) && a < n,
        renumbered(Renumber::Move(from, to), x) != renumbered(Renumber::Move(from, to), y),
{
    move_and_back(from, to, x);
    move_and_back(from, to, y);
}

/// Removing and inserting keep the order of the references they keep.
pub proof fn renumbering_keeps_order(m: Renumber, x: usize, y: usize)
    requires
        x < y < usize::MAX - 1,
        !(m is Move),
        renumbered(m, x) is Some,
        renumbered(m, y) is Some,
    ensures
        renumbered(m, x)->0 < renumbered(m, y)->0,
{
}

/// Removing feature `idx` from a history of `len` features holds back
/// exactly the features that were held back before, each at its new place.
pub proof fn remove_keeps_what_is_held_back(rollback: Option<usize>, idx: usize, len: usize, j: usize)
    requires
        idx < len,
        j < len,
        j != idx,
    ensures
        ({
            let bar = match rollback {
                Some(b) => if b > idx {
                    Some((b - 1) as usize)
                } else if b == idx {
                    if b < len - 1 { Some(b) } else { None }
                } else {
                    Some(b)
                },
                None => None,
            };
            renumbered(Renumber::Remove(idx), j) matches Some(k) && held_back(bar, k) == held_back(rollback, j)
        }),
{
}

/// A feature added while the history is rolled back goes in at the bar and
/// is computed; every other feature keeps whether it is held back.
pub proof fn add_keeps_what_is_held_back(b: usize, len: usize, j: usize)
    requires
        b < len,
        j < len,
    ensures
        !held_back(Some((b + 1) as usize), b),
        renumbered(Renumber::Insert(b), j) matches Some(k) && held_back(Some((b + 1) as usize), k) == held_back(
            Some(b),
            j,
        ),
{
}

/// What `format` writes, `parse` reads back: no indices read as the default
/// regions, and indices in increasing order as themselves.
pub proof fn format_then_parse(v: Seq<usize>)
    requires
        increasing(v),
    ensures
        selection(joined(v)) == if v.len() == 0 { None } else { Some(v.to_set()) },
{
    lemma_selection_of_joined(v);
}

/// The text a click stores reads back as the regions the click left in
/// use, unless it left none while some are used by default: then the
/// empty text reads as the default regions.
pub proof fn click_is_stored(defaults: Seq<bool>, spec: Seq<char>, i: usize)
    requires
        defaults.len() <= usize::MAX,
        i < defaults.len(),
        toggled(defaults, spec, i) != Set::<usize>::empty() || default_indices(defaults).len() == 0,
    ensures
        in_use(defaults, toggle_text(defaults, spec, i)) == toggled(defaults, spec, i),
{
    let t = toggled(defaults, spec, i);
    let n = defaults.len();
    lemma_default_indices(defaults);
    assert forall|k: usize| t.contains(k) implies k < n by {}
    lemma_in_order_below(t, n as nat);
    if t == default_indices(defaults).to_set() {
        assert(toggle_text(defaults, spec, i).len() == 0);
        assert(trim(Seq::<char>::empty()).len() == 0) by {
            assert(crate::text::lead_white(Seq::<char>::empty()) == 0);
        }
        assert(toggle_text(defaults, spec, i) =~= Seq::<char>::empty());
    } else {
        let v = in_order(t);
        lemma_selection_of_joined(v);
        if v.len() == 0 {
            assert(t == Set::<usize>::empty());
            assert(default_indices(defaults).len() == 0);
            assert(default_indices(defaults).to_set() =~= Set::<usize>::empty());
        }
    }
}

/// Clicking a region twice gives back the regions in use before (those
/// that exist), unless the first click left none in use while some are
/// used by default.
pub proof fn click_twice(defaults: Seq<bool>, spec: Seq<char>, i: usize)
    requires
        defaults.len() <= usize::MAX,
        i < defaults.len(),
        toggled(defaults, spec, i) != Set::<usize>::empty() || default_indices(defaults).len() == 0,
    ensures
        toggled(defaults, toggle_text(defaults, spec, i), i) == in_use(defaults, spec).filter(
            |k: usize| k < defaults.len(),
        ),
{
    click_is_stored(defaults, spec, i);
    let n = defaults.len();
    let kept = in_use(defaults, spec).filter(|k: usize| k < n);
    let t = toggled(defaults, spec, i);
    let kept2 = t.filter(|k: usize| k < n);
    assert(kept2 =~= t);
    if kept.contains(i) {
        assert(t.remove(i).insert(i) =~= kept) by {
            assert(t =~= kept.remove(i));
        }
        assert(kept.remove(i).insert(i) =~= kept);
    } else {
        assert(kept.insert(i).remove(i) =~= kept);
    }
}

/// Redo after an undo gives back the state and both lists as they were.
pub proof fn undo_then_redo<S>(u: Seq<S>, r: Seq<S>, c: S)
    requires
        u.len() > 0,
    ensures
        redone(undone((u, r, c))) == (u, r, c),
{
    assert(u.drop_last().push(u.last()) =~= u);
    assert(r.push(c).drop_last() =~= r);
}

/// Undo after a redo gives back the state and both lists as they were.
pub proof fn redo_then_undo<S>(u: Seq<S>, r: Seq<S>, c: S)
    requires
        r.len() > 0,
    ensures
        undone(redone((u, r, c))) == (u, r, c),
{
    assert(r.drop_last().push(r.last()) =~= r);
    assert(u.push(c).drop_last() =~= u);
}

/// Undo right after an edit brings back the state the edit started from
/// (`before`) and keeps the edited state (`after`) for redo; no more than
/// `MAX_UNDO` states are ever kept.
pub proof fn undo_after_an_edit<S>(u: Seq<S>, before: S, after: S)
    requires
        u.len() <= MAX_UNDO,
    ensures
        saved(u, before).len() <= MAX_UNDO,
        undone((saved(u, before), Seq::<S>::empty(), after)).2 == before,
        undone((saved(u, before), Seq::<S>::empty(), after)).1 == seq![after],
{
    assert(Seq::<S>::empty().push(after) =~= seq![after]);
}

/// A plane reference to a datum or a feature, written short, reads back as
/// the same reference (a datum by the same name).
pub proof fn short_then_parse<P>(r: PlaneRef<P>, back: PlaneRef<P>)
    requires
        r is Feature || (r matches PlaneRef::Datum(d) && is_datum_name(d@)),
        parses_as(back, short_text(r)),
    ensures
        r is Feature ==> back == r,
        r matches PlaneRef::Datum(d) ==> (back matches PlaneRef::Datum(e) && e@ == d@),
{
    match r {
        PlaneRef::Feature(i) => {
            let d = decimal(i as nat);
            lemma_decimal_reads_back(i as nat);
            lemma_parse_decimal(i);
            let t = trim(d);
            assert(t == d);
            assert(upper_text(t)[0] == d[0]);
            assert('0' <= d[0] <= '9');
        },
        PlaneRef::Datum(name) => {
            let n = name@;
            assert(n.len() == 2);
            assert(n[0] == 'X' || n[0] == 'Y');
            assert(n[1] == 'Y' || n[1] == 'Z');
            assert(lead_white(n) == 0);
            assert(n.skip(0) =~= n);
            assert(trail_white(n) == 0);
            assert(n.take(2) =~= n);
            assert(trim(n) == n);
            assert(upper_text(n) =~= n);
        },
        _ => {},
    }
}

/// A change to a history of `n` features sends two different features
/// that it keeps to different places, so what a map keeps per feature
/// follows each feature to its new place.
pub proof fn different_features_stay_apart(m: Renumber, n: usize, x: usize, y: usize)
    requires
        n < usize::MAX - 1,
        m matches Renumber::Move(from, to) ==> from < n && to < n,
        x < n,
        y < n,
        x != y,
        renumbered(m, x) is Some,
        renumbered(m, y) is Some,
    ensures
        renumbered(m, x) != renumbered(m, y),
{
    match m {
        Renumber::Move(from, to) => move_is_a_permutation(from, to, n, x, y),
        _ => if x < y {
            renumbering_keeps_order(m, x, y)
        } else {
            renumbering_keeps_order(m, y, x)
        },
    }
}

/// Moving the rollback bar computes again every feature whose state it
/// changes: a feature that it holds back or lets run anew comes at or after
/// the first feature computed again. The bar lands inside the history.
pub proof fn moving_the_bar_recomputes_what_changes(rollback: Option<usize>, at: Option<usize>, len: usize, idx: usize)
    ensures
        moved_bar(rollback, at, len).0 matches Some(b) ==> b < len,
        held_back(rollback, idx) != held_back(moved_bar(rollback, at, len).0, idx) ==> (moved_bar(
            rollback,
            at,
            len,
        ).1 matches Some(first) && first <= idx),
{
}

/// The catalogue starts with the seven bundled fonts, in their order, each
/// with no style and stored as "builtin:" and its name, whatever fonts are
/// installed; and two scans that find the same fonts give the same
/// catalogue.
pub proof fn catalogue_starts_with_builtins(system: Seq<FontEntry>, again: Seq<FontEntry>, k: int)
    requires
        0 <= k < builtin_list().len(),
    ensures
        builtin_list().len() == 7,
        catalogue_view(system).len() >= 7,
        catalogue_view(system)[k] == builtin_view(builtin_list()[k]),
        entry_views(again) == entry_views(system) ==> catalogue_view(again) == catalogue_view(system),
{
    if entry_views(again) == entry_views(system) {
        lemma_sorted_views(again, system);
        lemma_dedup_views(sorted_by_key(again), sorted_by_key(system));
    }
}

/// The history after the feature at `from` moved to `to`: taken out and
/// put back in at `to`.
pub open spec fn after_move<A>(s: Seq<A>, from: int, to: int) -> Seq<A> {
    s.remove(from).insert(to, s[from])
}

proof fn lemma_after_move_at<A>(s: Seq<A>, from: usize, to: usize, i: int)
    requires
        from < s.len(),
        to < s.len(),
        0 <= i < s.len(),
    ensures
        0 <= came_from(from, to, i) < s.len(),
        after_move(s, from as int, to as int)[i] == s[came_from(from, to, i)],
{
    let r = s.remove(from as int);
    assert(r.len() == s.len() - 1);
    let m = r.insert(to as int, s[from as int]);
    assert(m.len() == s.len());
    if i < to {
        assert(m[i] == r[i]);
        if i < from {
            assert(r[i] == s[i]);
        } else {
            assert(r[i] == s[i + 1]);
        }
    } else if i == to {
        assert(m[i] == s[from as int]);
    } else {
        assert(m[i] == r[i - 1]);
        if i - 1 < from {
            assert(r[i - 1] == s[i - 1]);
        } else {
            assert(r[i - 1] == s[i]);
        }
    }
}

proof fn lemma_none_from(refs: Seq<Seq<usize>>, from: usize, to: usize, k: int)
    requires
        0 <= k <= refs.len(),
    ensures
        first_blocked(refs, from, to, k) is None <==> forall|i: int|
            k <= i < refs.len() ==> !uses_later(#[trigger] refs[came_from(from, to, i)], from, to, i),
    decreases refs.len() - k,
{
    if k < refs.len() {
        lemma_none_from(refs, from, to, k + 1);
    }
}

/// A move is refused exactly when, in the history after the move, some
/// feature holds a reference that, renumbered for the move, is not the
/// deleted mark and points at the feature itself or later.
pub proof fn a_move_is_refused_exactly_when_a_reference_points_forward(
    refs: Seq<Seq<usize>>,
    from: usize,
    to: usize,
)
    requires
        from < refs.len(),
        to < refs.len(),
    ensures
        first_blocked(refs, from, to, 0) is None <==> forall|i: int, j: int|
            0 <= i < refs.len() && 0 <= j < after_move(refs, from as int, to as int)[i].len() ==> (match renumbered(
                Renumber::Move(from, to),
                #[trigger] after_move(refs, from as int, to as int)[i][j],
            ) {
                Some(v) => v == usize::MAX || v < i,
                None => true,
            }),
{
    let m = after_move(refs, from as int, to as int);
    lemma_none_from(refs, from, to, 0);
    assert forall|i: int| 0 <= i < refs.len() implies m[i] == refs[came_from(from, to, i)] by {
        lemma_after_move_at(refs, from, to, i);
    }
    if first_blocked(refs, from, to, 0) is None {
        assert forall|i: int, j: int| 0 <= i < refs.len() && 0 <= j < m[i].len() implies (match renumbered(
            Renumber::Move(from, to),
            #[trigger] m[i][j],
        ) {
            Some(v) => v == usize::MAX || v < i,
            None => true,
        }) by {
            let r = refs[came_from(from, to, i)];
            assert(!uses_later(r, from, to, i));
            assert(m[i] == r);
            assert(!(moved_to(from, to, r[j]) != usize::MAX && moved_to(from, to, r[j]) >= i));
        }
    } else {
        let k = choose|i: int| 0 <= i < refs.len() && uses_later(#[trigger] refs[came_from(from, to, i)], from, to, i);
        let r = refs[came_from(from, to, k)];
        let j = choose|j: int| 0 <= j < r.len() && moved_to(from, to, r[j]) != usize::MAX && moved_to(from, to, r[j]) >= k;
        assert(m[k] == r);
        assert(m[k][j] == r[j]);
        assert(renumbered(Renumber::Move(from, to), m[k][j]) is Some);
    }
}

/// Whether the name `n` is written somewhere in the expression `t`: as a
/// name itself, or inside any operand or argument.
pub open spec fn occurs(n: Seq<char>, t: Term) -> bool
    decreases t,
{
    match t {
        Term::Num(_) => false,
        Term::Name(m) => m == n,
        Term::Neg(a) => occurs(n, *a),
        Term::Add(a, b) => occurs(n, *a) || occurs(n, *b),
        Term::Sub(a, b) => occurs(n, *a) || occurs(n, *b),
        Term::Mul(a, b) => occurs(n, *a) || occurs(n, *b),
        Term::Div(a, b) => occurs(n, *a) || occurs(n, *b),
        Term::Pow(a, b) => occurs(n, *a) || occurs(n, *b),
        Term::Call(_, args) => occurs_in(n, args),
    }
}

/// Whether the name `n` is written in one of the expressions `s`.
pub open spec fn occurs_in(n: Seq<char>, s: Seq<Term>) -> bool
    decreases s,
{
    if s.len() == 0 {
        false
    } else {
        occurs_in(n, s.drop_last()) || occurs(n, s.last())
    }
}

/// The names an expression refers to are exactly the names written in it,
/// in any operand of any operator or argument of any call: a parameter is
/// computed after every name in its source.
pub proof fn an_expression_refers_to_every_name_written_in_it(n: Seq<char>, t: Term)
    ensures
        names_of(t).contains(n) <==> occurs(n, t),
    decreases t,
{
    match t {
        Term::Num(_) => {},
        Term::Name(m) => {
            assert(names_of(t)[0] == m);
        },
        Term::Neg(a) => {
            an_expression_refers_to_every_name_written_in_it(n, *a);
        },
        Term::Add(a, b) => {
            an_expression_refers_to_every_name_written_in_it(n, *a);
            an_expression_refers_to_every_name_written_in_it(n, *b);
            lemma_concat_contains(names_of(*a), names_of(*b), n);
        },
        Term::Sub(a, b) => {
            an_expression_refers_to_every_name_written_in_it(n, *a);
            an_expression_refers_to_every_name_written_in_it(n, *b);
            lemma_concat_contains(names_of(*a), names_of(*b), n);
        },
        Term::Mul(a, b) => {
            an_expression_refers_to_every_name_written_in_it(n, *a);
            an_expression_refers_to_every_name_written_in_it(n, *b);
            lemma_concat_contains(names_of(*a), names_of(*b), n);
        },
        Term::Div(a, b) => {
            an_expression_refers_to_every_name_written_in_it(n, *a);
            an_expression_refers_to_every_name_written_in_it(n, *b);
            lemma_concat_contains(names_of(*a), names_of(*b), n);
        },
        Term::Pow(a, b) => {
            an_expression_refers_to_every_name_written_in_it(n, *a);
            an_expression_refers_to_every_name_written_in_it(n, *b);
            lemma_concat_contains(names_of(*a), names_of(*b), n);
        },
        Term::Call(f, args) => {
            assert(decreases_to!(t => args));
            lemma_names_in(n, args);
        },
    }
}

proof fn lemma_concat_contains(x: Seq<Seq<char>>, y: Seq<Seq<char>>, n: Seq<char>)
    ensures
        (x + y).contains(n) <==> x.contains(n) || y.contains(n),
{
    if (x + y).contains(n) {
        let k = choose|k: int| 0 <= k < (x + y).len() && (x + y)[k] == n;
        if k < x.len() {
            assert(x[k] == n);
        } else {
            assert(y[k - x.len()] == n);
        }
    }
    if x.contains(n) {
        let k = choose|k: int| 0 <= k < x.len() && x[k] == n;
        assert((x + y)[k] == n);
    }
    if y.contains(n) {
        let k = choose|k: int| 0 <= k < y.len() && y[k] == n;
        assert((x + y)[x.len() + k] == n);
    }
}

proof fn lemma_names_in(n: Seq<char>, s: Seq<Term>)
    ensures
        names_in(s).contains(n) <==> occurs_in(n, s),
    decreases s,
{
    if s.len() > 0 {
        assert(decreases_to!(s => s.drop_last()));
        assert(decreases_to!(s => s.last()));
        lemma_names_in(n, s.drop_last());
        an_expression_refers_to_every_name_written_in_it(n, s.last());
        lemma_concat_contains(names_in(s.drop_last()), names_of(s.last()), n);
    }
}

/// A 16-bit number as a zip writer stores it: low byte first.
pub open spec fn u16_bytes(v: nat) -> Seq<u8> {
    seq![(v % 256) as u8, (v / 256) as u8]
}

/// A local file header as a zip writer lays it out, followed by the
/// entry's data: the signature `PK\x03\x04`, 22 bytes of version, flags,
/// method, time, date, checksum and sizes, the name's length, the extra
/// field's length, the name, the extra field, and then the data.
pub open spec fn local_record(fixed: Seq<u8>, name: Seq<u8>, extra: Seq<u8>, data: Seq<u8>) -> Seq<u8> {
    seq![0x50u8, 0x4Bu8, 0x03u8, 0x04u8] + fixed + u16_bytes(name.len()) + u16_bytes(extra.len()) + name + extra + data
}

/// An entry reads back from exactly the bytes written after its local
/// header, its name and its extra field, whatever the extra field holds:
/// stored, they are the entry; deflated, they are what is inflated.
pub proof fn an_entry_reads_back_as_written(
    d: Seq<u8>,
    es: Seq<(Seq<char>, int, int, int, int, int)>,
    name: Seq<char>,
    i: int,
    local: int,
    fixed: Seq<u8>,
    nm: Seq<u8>,
    extra: Seq<u8>,
    data: Seq<u8>,
)
    requires
        fixed.len() == 22,
        nm.len() < 65536,
        extra.len() < 65536,
        0 <= local,
        local + local_record(fixed, nm, extra, data).len() <= d.len(),
        d.subrange(local, local + local_record(fixed, nm, extra, data).len()) == local_record(fixed, nm, extra, data),
        crate::zip::find_entry(es, crate::text::trim_start(name, '/'), 0) == Some(i),
        es[i].1 == 0 || es[i].1 == 8,
        es[i].2 % 2 == 0,
        es[i].3 == data.len(),
        0 <= es[i].4 <= MAX_ENTRY,
        es[i].5 == local,
    ensures
        es[i].1 == 0 ==> read_spec(d, es, name) == Ok::<Seq<u8>, Seq<char>>(data),
        es[i].1 == 8 ==> read_spec(d, es, name) == crate::zip::finish_inflate_spec(
            name,
            crate::zip::inflated(data, (MAX_ENTRY + 1) as u64),
        ),
{
    let rec = local_record(fixed, nm, extra, data);
    let n = nm.len() as int;
    let x = extra.len() as int;
    assert forall|k: int| 0 <= k < rec.len() implies d[local + k] == rec[k] by {
        assert(d.subrange(local, local + rec.len())[k] == d[local + k]);
    }
    assert(rec[0] == 0x50u8 && rec[1] == 0x4Bu8 && rec[2] == 0x03u8 && rec[3] == 0x04u8);
    assert(d[local] == 0x50u8 && d[local + 1] == 0x4Bu8 && d[local + 2] == 0x03u8 && d[local + 3] == 0x04u8);
    assert(le32(d, local) == Some(LOCAL_SIG as int));
    assert(rec[26] == (n % 256) as u8 && rec[27] == (n / 256) as u8);
    assert(rec[28] == (x % 256) as u8 && rec[29] == (x / 256) as u8);
    assert(d[local + 26] == rec[26] && d[local + 27] == rec[27] && d[local + 28] == rec[28] && d[local + 29] == rec[29]);
    assert(le16(d, local + 26) == Some(n));
    assert(le16(d, local + 28) == Some(x));
    let start = local + 30 + n + x;
    assert(rec.len() == 30 + n + x + data.len());
    assert forall|k: int| 0 <= k < data.len() implies rec[30 + n + x + k] == data[k] by {}
    assert(d.subrange(start, start + data.len()) =~= data);
}

/// Ten to the power `k`.
pub open spec fn pow10(k: nat) -> int
    decreases k,
{
    if k == 0 {
        1
    } else {
        10 * pow10((k - 1) as nat)
    }
}

pub open spec fn all_digits(s: Seq<char>) -> bool {
    forall|i: int| 0 <= i < s.len() ==> '0' <= #[trigger] s[i] <= '9'
}

/// `k` zeros.
pub open spec fn zeros(k: nat) -> Seq<char> {
    Seq::new(k, |i: int| '0')
}

/// A decimal number written `-?D` or `-?D.F`, read as a whole number
/// `numerator` over ten to the number of `decimals`.
pub open spec fn unsigned_part(s: Seq<char>) -> Seq<char> {
    if s.len() > 0 && s[0] == '-' { s.drop_first() } else { s }
}

pub open spec fn decimals(s: Seq<char>) -> nat {
    let b = unsigned_part(s);
    let p = first_of(b, '.', '.');
    if p < b.len() { (b.len() - p - 1) as nat } else { 0 }
}

pub open spec fn numerator(s: Seq<char>) -> int {
    let b = unsigned_part(s);
    let p = first_of(b, '.', '.');
    let v = if p < b.len() { digits_value(b.take(p) + b.skip(p + 1)) } else { digits_value(b) };
    if s.len() > 0 && s[0] == '-' { -v } else { v as int }
}

proof fn lemma_pow10_add(a: nat, b: nat)
    ensures
        pow10(a + b) == pow10(a) * pow10(b),
    decreases a,
{
    if a > 0 {
        let a1 = (a - 1) as nat;
        lemma_pow10_add(a1, b);
        assert((a1 + b) as nat == (a + b - 1) as nat);
        assert(pow10(a + b) == 10 * pow10(a1 + b));
        assert(pow10(a) == 10 * pow10(a1));
        let pa = pow10(a1);
        let pb = pow10(b);
        assert(10 * (pa * pb) == (10 * pa) * pb) by (nonlinear_arith);
        assert(pow10(a + b) == 10 * (pa * pb));
        assert(pow10(a) * pow10(b) == (10 * pa) * pb);
    }
}

proof fn lemma_value_zeros(x: Seq<char>, z: nat)
    ensures
        digits_value(x + zeros(z)) as int == (digits_value(x) as int) * pow10(z),
    decreases z,
{
    if z == 0 {
        assert(x + zeros(0) =~= x);
    } else {
        let z1 = (z - 1) as nat;
        let y = x + zeros(z1);
        assert((x + zeros(z)).drop_last() =~= y);
        assert((x + zeros(z)).last() == '0');
        assert(('0' as int) == 48);
        lemma_value_zeros(x, z1);
        assert(digits_value(x + zeros(z)) == digits_value(y) * 10);
        assert(pow10(z) == 10 * pow10(z1));
        let dx = digits_value(x) as int;
        let pz = pow10(z1);
        assert(dx * pz * 10 == dx * (10 * pz)) by (nonlinear_arith);
    }
}

/// Digits end in their trimmed part followed by the trimmed zeros.
proof fn lemma_trim_zeros(f: Seq<char>)
    ensures
        trim_end(f, '0').len() <= f.len(),
        f == trim_end(f, '0') + zeros((f.len() - trim_end(f, '0').len()) as nat),
        trim_end(f, '0').len() > 0 ==> trim_end(f, '0').last() != '0',
        trim_end(f, '0') == f.take(trim_end(f, '0').len() as int),
    decreases f.len(),
{
    if f.len() > 0 && f.last() == '0' {
        lemma_trim_zeros(f.drop_last());
        let t = trim_end(f, '0');
        let k = (f.len() - t.len()) as nat;
        assert(f.drop_last() == t + zeros((k - 1) as nat));
        assert(zeros(k) =~= zeros((k - 1) as nat).push('0'));
        assert(f =~= f.drop_last().push('0'));
        assert(f =~= t + zeros(k));
        assert(f.take(t.len() as int) =~= f.drop_last().take(t.len() as int));
    } else {
        assert(f + zeros(0) =~= f);
        assert(f.take(f.len() as int) =~= f);
    }
}

/// Trimming `c` from `x + y` trims `y`, and trims into `x` only once all of
/// `y` is gone.
proof fn lemma_trim_concat(x: Seq<char>, y: Seq<char>, c: char)
    ensures
        trim_end(x + y, c) == if trim_end(y, c).len() > 0 { x + trim_end(y, c) } else { trim_end(x, c) },
    decreases y.len(),
{
    if y.len() == 0 {
        assert(x + y =~= x);
    } else if y.last() == c {
        assert((x + y).drop_last() =~= x + y.drop_last());
        lemma_trim_concat(x, y.drop_last(), c);
    } else {
        assert((x + y).last() == y.last());
    }
}

/// No point among digits: the first point of `d + r` lies past `d`.
proof fn lemma_first_point(d: Seq<char>, r: Seq<char>)
    requires
        all_digits(d),
    ensures
        first_of(d + r, '.', '.') == d.len() + first_of(r, '.', '.'),
    decreases d.len(),
{
    if d.len() > 0 {
        assert((d + r).drop_first() =~= d.drop_first() + r);
        assert((d + r)[0] == d[0]);
        lemma_first_point(d.drop_first(), r);
    } else {
        assert(d + r =~= r);
    }
}

/// Reading `sign d . f`, or `sign d` when `f` is none.
proof fn lemma_read(sign: Seq<char>, d: Seq<char>, f: Option<Seq<char>>)
    requires
        sign == Seq::<char>::empty() || sign == seq!['-'],
        d.len() >= 1,
        all_digits(d),
    ensures
        ({
            let s = match f {
                Some(f) => sign + d + seq!['.'] + f,
                None => sign + d,
            };
            let v = match f {
                Some(f) => digits_value(d + f),
                None => digits_value(d),
            };
            &&& decimals(s) == match f {
                Some(f) => f.len(),
                None => 0,
            }
            &&& numerator(s) == if sign.len() > 0 { -v } else { v as int }
        }),
{
    match f {
        Some(f) => {
            let s = sign + d + seq!['.'] + f;
            let b = d + (seq!['.'] + f);
            assert(unsigned_part(s) =~= b) by {
                if sign.len() > 0 {
                    assert(s.drop_first() =~= b);
                } else {
                    assert(s =~= b);
                    assert(s[0] == d[0]);
                }
            }
            lemma_first_point(d, seq!['.'] + f);
            assert(b.take(d.len() as int) =~= d);
            assert(b.skip(d.len() as int + 1) =~= f);
            if sign.len() == 0 {
                assert(s[0] == d[0]);
            }
        },
        None => {
            let s = sign + d;
            assert(unsigned_part(s) =~= d) by {
                if sign.len() > 0 {
                    assert(s.drop_first() =~= d);
                } else {
                    assert(s =~= d);
                }
            }
            lemma_first_point(d, Seq::<char>::empty());
            assert(d + Seq::<char>::empty() =~= d);
            if sign.len() == 0 {
                assert(s[0] == d[0]);
            }
        },
    }
}

/// Shortening a number written with decimals keeps its value: the trimmed
/// text, read as a number, equals the text read as a number (negative zero
/// reads as zero), and it still has a point only when a decimal that is
/// not zero follows it.
pub proof fn shortening_keeps_the_value(sign: Seq<char>, d: Seq<char>, f: Seq<char>)
    requires
        sign == Seq::<char>::empty() || sign == seq!['-'],
        d.len() >= 1,
        all_digits(d),
        all_digits(f),
    ensures
        ({
            let s = sign + d + seq!['.'] + f;
            let t = trimmed_number(s);
            numerator(t) * pow10(decimals(s)) == numerator(s) * pow10(decimals(t))
        }),
{
    let s = sign + d + seq!['.'] + f;
    let p = sign + d;
    let ft = trim_end(f, '0');
    let z = (f.len() - ft.len()) as nat;
    lemma_trim_zeros(f);
    assert(s =~= (p + seq!['.']) + f);
    lemma_trim_concat(p + seq!['.'], f, '0');
    lemma_read(sign, d, Some(f));
    assert(all_digits(d + ft)) by {
        assert forall|i: int| 0 <= i < (d + ft).len() implies '0' <= #[trigger] (d + ft)[i] <= '9' by {
            if i >= d.len() {
                assert(ft[i - d.len()] == f[i - d.len()]);
            }
        }
    }
    assert(d + f =~= (d + ft) + zeros(z));
    lemma_value_zeros(d + ft, z);
    if ft.len() > 0 {
        let a = (p + seq!['.']) + ft;
        assert(trim_end(s, '0') == a);
        assert(a.last() == ft.last());
        assert('0' <= ft.last() <= '9') by {
            assert(ft.last() == f[ft.len() - 1]);
        }
        assert(trim_end(a, '.') == a);
        assert(a != seq!['-', '0']) by {
            if a.len() == 2 {
                assert(a.len() >= d.len() + 2);
            }
        }
        assert(trimmed_number(s) == a);
        assert(a =~= sign + d + seq!['.'] + ft);
        lemma_read(sign, d, Some(ft));
        lemma_pow10_add(ft.len(), z);
        let v = digits_value(d + ft) as int;
        let pz = pow10(z);
        let pf = pow10(ft.len());
        assert(f.len() == ft.len() + z);
        assert(pow10(f.len()) == pf * pz);
        assert(digits_value(d + f) as int == v * pz);
        assert(v * pz * pf == v * (pf * pz)) by (nonlinear_arith);
        assert(-v * (pf * pz) == -(v * pz) * pf) by (nonlinear_arith);
        assert(decimals(s) == f.len());
        assert(decimals(a) == ft.len());
        if sign.len() > 0 {
            assert(numerator(a) == -v);
            assert(numerator(s) == -(v * pz));
        } else {
            assert(numerator(a) == v);
            assert(numerator(s) == v * pz);
        }
        assert(numerator(a) * pow10(f.len()) == numerator(s) * pow10(ft.len()));
    } else {
        assert(f =~= zeros(z));
        let x = p + seq!['.'];
        assert(trim_end(s, '0') == trim_end(x, '0'));
        assert(x.last() == '.');
        assert(trim_end(x, '0') == x);
        assert(x.drop_last() =~= p);
        assert(p.last() == d.last());
        assert(trim_end(x, '.') == trim_end(p, '.'));
        assert(trim_end(p, '.') == p);
        assert(d + ft =~= d);
        lemma_read(sign, d, None);
        let v = digits_value(d) as int;
        let pz = pow10(z);
        assert(digits_value(d + f) as int == v * pz) by {
            assert(d + f =~= d + zeros(z));
            lemma_value_zeros(d, z);
        }
        assert(decimals(s) == f.len());
        assert(f.len() == z);
        assert(pow10(0) == 1);
        if p == seq!['-', '0'] {
            assert(trimmed_number(s) == seq!['0']);
            assert(d =~= seq!['0']);
            assert(digits_value(d) == 0) by {
                reveal_with_fuel(digits_value, 2);
                assert(d.drop_last() =~= Seq::<char>::empty());
                assert(d.last() == '0');
                assert(('0' as int) == 48);
            }
            lemma_read(Seq::<char>::empty(), seq!['0'], None);
            assert(Seq::<char>::empty() + seq!['0'] =~= seq!['0']);
            assert(numerator(seq!['0']) == 0);
            assert(decimals(seq!['0']) == 0);
            assert(v * pz == 0) by (nonlinear_arith)
                requires
                    v == 0,
            ;
            assert(numerator(s) == 0);
        } else {
            assert(trimmed_number(s) == p);
            assert(decimals(p) == 0);
            if sign.len() > 0 {
                assert(numerator(p) == -v);
                assert(numerator(s) == -(v * pz));
            } else {
                assert(numerator(p) == v);
                assert(numerator(s) == v * pz);
            }
            assert(-v * pz == -(v * pz)) by (nonlinear_arith);
            assert(numerator(p) * pow10(f.len()) == numerator(s) * pow10(0));
        }
    }
}

/// A name as the expression grammar reads one: a letter or `_`, then
/// letters, digits and `_`.
pub open spec fn is_name(x: Seq<u8>) -> bool {
    &&& x.len() > 0
    &&& (is_alpha(x[0]) || x[0] == 0x5Fu8)
    &&& forall|i: int| 0 <= i < x.len() ==> is_name_byte(#[trigger] x[i])
}

/// `x` stands at `pos` in `b`, and what follows it (if anything) ends it:
/// no name byte, no white space and no `(`.
pub open spec fn name_at(b: Seq<u8>, pos: int, x: Seq<u8>) -> bool {
    &&& is_name(x)
    &&& 0 <= pos
    &&& pos + x.len() <= b.len()
    &&& b.subrange(pos, pos + x.len()) == x
    &&& (pos + x.len() == b.len() || {
        let c = b[pos + x.len()];
        !is_name_byte(c) && !is_space(c) && c != 0x28u8
    })
}

proof fn lemma_name_run(b: Seq<u8>, pos: int, x: Seq<u8>, k: int)
    requires
        name_at(b, pos, x),
        pos <= k <= pos + x.len(),
    ensures
        name_end(b, k) == pos + x.len(),
    decreases pos + x.len() - k,
{
    if k < pos + x.len() {
        assert(b[k] == x[k - pos]);
        lemma_name_run(b, pos, x, k + 1);
    }
}

proof fn lemma_name_atom(b: Seq<u8>, pos: int, x: Seq<u8>)
    requires
        name_at(b, pos, x),
    ensures
        p_atom(b, pos) == Ok::<(Term, int), (int, Seq<char>)>((Term::Name(ascii_text(x)), pos + x.len())),
{
    let e = pos + x.len();
    assert(b[pos] == x[0]);
    assert(skip_ws(b, pos) == pos);
    lemma_name_run(b, pos, x, pos);
    assert(skip_ws(b, e) == e);
}

proof fn lemma_name_unary(b: Seq<u8>, pos: int, x: Seq<u8>)
    requires
        name_at(b, pos, x),
        pos + x.len() == b.len() || b[pos + x.len()] != 0x5Eu8,
    ensures
        p_unary(b, pos) == Ok::<(Term, int), (int, Seq<char>)>((Term::Name(ascii_text(x)), pos + x.len())),
{
    let e = pos + x.len();
    assert(b[pos] == x[0]);
    assert(skip_ws(b, pos) == pos);
    lemma_name_atom(b, pos, x);
    assert(skip_ws(b, e) == e);
    assert(!crate::expr::at(b, e, 0x5Eu8));
    assert(p_power(b, pos) == Ok::<(Term, int), (int, Seq<char>)>((Term::Name(ascii_text(x)), e)));
    assert(!crate::expr::at(b, pos, 0x2Du8));
}

/// Nothing is left to read: the rest of a term and of an expression is
/// the tree so far.
proof fn lemma_at_end(b: Seq<u8>, t: Term)
    ensures
        p_term_rest(b, t, b.len() as int) == Ok::<(Term, int), (int, Seq<char>)>((t, b.len() as int)),
        p_expr_rest(b, t, b.len() as int) == Ok::<(Term, int), (int, Seq<char>)>((t, b.len() as int)),
{
    assert(skip_ws(b, b.len() as int) == b.len());
}

proof fn lemma_name_term(b: Seq<u8>, pos: int, x: Seq<u8>)
    requires
        name_at(b, pos, x),
        pos + x.len() == b.len() || (b[pos + x.len()] != 0x5Eu8 && b[pos + x.len()] != 0x2Au8 && b[pos + x.len()]
            != 0x2Fu8),
    ensures
        p_term(b, pos) == Ok::<(Term, int), (int, Seq<char>)>((Term::Name(ascii_text(x)), pos + x.len())),
{
    let e = pos + x.len();
    lemma_name_unary(b, pos, x);
    lemma_at_end(b, Term::Name(ascii_text(x)));
    assert(skip_ws(b, e) == e);
}

/// A leading minus negates: for any name `x`, `-x` parses as the negation
/// of `x`.
pub proof fn a_leading_minus_negates(x: Seq<u8>)
    requires
        is_name(x),
    ensures
        parse_spec(seq![0x2Du8] + x) == Ok::<Term, (int, Seq<char>)>(Term::Neg(Box::new(Term::Name(ascii_text(x))))),
{
    let nx = Term::Name(ascii_text(x));
    let n = x.len() as int;
    let b = seq![0x2Du8] + x;
    assert(b.subrange(1, 1 + n) =~= x);
    assert(name_at(b, 1, x));
    assert(b[0] == 0x2Du8);
    assert(skip_ws(b, 0) == 0);
    lemma_name_unary(b, 1, x);
    lemma_at_end(b, Term::Neg(Box::new(nx)));
    assert(p_unary(b, 0) == Ok::<(Term, int), (int, Seq<char>)>((Term::Neg(Box::new(nx)), b.len() as int)));
    assert(p_term(b, 0) == Ok::<(Term, int), (int, Seq<char>)>((Term::Neg(Box::new(nx)), b.len() as int)));
    assert(p_expr(b, 0) == Ok::<(Term, int), (int, Seq<char>)>((Term::Neg(Box::new(nx)), b.len() as int)));
    assert(skip_ws(b, b.len() as int) == b.len());
}

/// Each binary operator builds its own node: for any two names `x` and
/// `y`, `x+y` parses as their sum, `x-y` as their difference, `x*y` as
/// their product, `x/y` as their quotient and `x^y` as a power of `x`.
pub proof fn each_operator_builds_its_own_node(x: Seq<u8>, y: Seq<u8>, op: u8)
    requires
        is_name(x),
        is_name(y),
        op == 0x2Bu8 || op == 0x2Du8 || op == 0x2Au8 || op == 0x2Fu8 || op == 0x5Eu8,
    ensures
        ({
            let nx = Term::Name(ascii_text(x));
            let ny = Term::Name(ascii_text(y));
            let t = if op == 0x2Bu8 {
                Term::Add(Box::new(nx), Box::new(ny))
            } else if op == 0x2Du8 {
                Term::Sub(Box::new(nx), Box::new(ny))
            } else if op == 0x2Au8 {
                Term::Mul(Box::new(nx), Box::new(ny))
            } else if op == 0x2Fu8 {
                Term::Div(Box::new(nx), Box::new(ny))
            } else {
                Term::Pow(Box::new(nx), Box::new(ny))
            };
            parse_spec(x + seq![op] + y) == Ok::<Term, (int, Seq<char>)>(t)
        }),
{
    let nx = Term::Name(ascii_text(x));
    let ny = Term::Name(ascii_text(y));
    let b = x + seq![op] + y;
    let n = x.len() as int;
    let len = b.len() as int;
    assert(b.subrange(0, n) =~= x);
    assert(b.subrange(n + 1, len) =~= y);
    assert(b[n] == op);
    assert(name_at(b, 0, x));
    assert(name_at(b, n + 1, y));
    assert(skip_ws(b, n) == n);
    lemma_name_term(b, n + 1, y);
    lemma_name_unary(b, n + 1, y);
    assert(skip_ws(b, len) == len);
    if op == 0x2Bu8 || op == 0x2Du8 {
        let t = if op == 0x2Bu8 { Term::Add(Box::new(nx), Box::new(ny)) } else { Term::Sub(Box::new(nx), Box::new(ny)) };
        lemma_name_term(b, 0, x);
        lemma_at_end(b, t);
        assert(p_expr_rest(b, nx, n) == Ok::<(Term, int), (int, Seq<char>)>((t, len)));
        assert(p_expr(b, 0) == Ok::<(Term, int), (int, Seq<char>)>((t, len)));
    } else if op == 0x2Au8 || op == 0x2Fu8 {
        let t = if op == 0x2Au8 { Term::Mul(Box::new(nx), Box::new(ny)) } else { Term::Div(Box::new(nx), Box::new(ny)) };
        lemma_name_unary(b, 0, x);
        lemma_at_end(b, t);
        assert(p_term_rest(b, nx, n) == Ok::<(Term, int), (int, Seq<char>)>((t, len)));
        assert(p_term(b, 0) == Ok::<(Term, int), (int, Seq<char>)>((t, len)));
        assert(p_expr(b, 0) == Ok::<(Term, int), (int, Seq<char>)>((t, len)));
    } else {
        let t = Term::Pow(Box::new(nx), Box::new(ny));
        lemma_name_atom(b, 0, x);
        lemma_at_end(b, t);
        assert(p_power(b, 0) == Ok::<(Term, int), (int, Seq<char>)>((t, len)));
        assert(b[0] == x[0]);
        assert(skip_ws(b, 0) == 0);
        assert(p_unary(b, 0) == Ok::<(Term, int), (int, Seq<char>)>((t, len)));
        assert(p_term(b, 0) == Ok::<(Term, int), (int, Seq<char>)>((t, len)));
        assert(p_expr(b, 0) == Ok::<(Term, int), (int, Seq<char>)>((t, len)));
    }
}

/// Three names joined by two operators, and where each name stands.
pub open spec fn three(x: Seq<u8>, o1: u8, y: Seq<u8>, o2: u8, z: Seq<u8>) -> Seq<u8> {
    x + seq![o1] + y + seq![o2] + z
}

proof fn lemma_three(x: Seq<u8>, o1: u8, y: Seq<u8>, o2: u8, z: Seq<u8>)
    requires
        is_name(x),
        is_name(y),
        is_name(z),
        o1 == 0x2Bu8 || o1 == 0x2Du8 || o1 == 0x2Au8 || o1 == 0x2Fu8 || o1 == 0x5Eu8,
        o2 == 0x2Bu8 || o2 == 0x2Du8 || o2 == 0x2Au8 || o2 == 0x2Fu8 || o2 == 0x5Eu8,
    ensures
        ({
            let b = three(x, o1, y, o2, z);
            let n = x.len() as int;
            let m = n + 1 + y.len();
            &&& b.len() == m + 1 + z.len()
            &&& b[n] == o1
            &&& b[m] == o2
            &&& name_at(b, 0, x)
            &&& name_at(b, n + 1, y)
            &&& name_at(b, m + 1, z)
            &&& skip_ws(b, n) == n
            &&& skip_ws(b, m) == m
            &&& skip_ws(b, b.len() as int) == b.len()
        }),
{
    let b = three(x, o1, y, o2, z);
    let n = x.len() as int;
    let m = n + 1 + y.len();
    assert(b.subrange(0, n) =~= x);
    assert(b.subrange(n + 1, m) =~= y);
    assert(b.subrange(m + 1, b.len() as int) =~= z);
    assert(b[n] == o1);
    assert(b[m] == o2);
}

/// Multiplication binds tighter than addition: for any names, `x+y*z`
/// parses as `x` plus the product of `y` and `z`.
pub proof fn times_binds_tighter_than_plus(x: Seq<u8>, y: Seq<u8>, z: Seq<u8>)
    requires
        is_name(x),
        is_name(y),
        is_name(z),
    ensures
        parse_spec(three(x, 0x2Bu8, y, 0x2Au8, z)) == Ok::<Term, (int, Seq<char>)>(Term::Add(
            Box::new(Term::Name(ascii_text(x))),
            Box::new(Term::Mul(Box::new(Term::Name(ascii_text(y))), Box::new(Term::Name(ascii_text(z))))),
        )),
{
    let b = three(x, 0x2Bu8, y, 0x2Au8, z);
    lemma_three(x, 0x2Bu8, y, 0x2Au8, z);
    let n = x.len() as int;
    let m = n + 1 + y.len();
    let len = b.len() as int;
    let (nx, ny, nz) = (Term::Name(ascii_text(x)), Term::Name(ascii_text(y)), Term::Name(ascii_text(z)));
    let mul = Term::Mul(Box::new(ny), Box::new(nz));
    let t = Term::Add(Box::new(nx), Box::new(mul));
    lemma_name_term(b, 0, x);
    lemma_name_unary(b, n + 1, y);
    lemma_name_unary(b, m + 1, z);
    lemma_at_end(b, mul);
    lemma_at_end(b, t);
    assert(p_term_rest(b, ny, m) == Ok::<(Term, int), (int, Seq<char>)>((mul, len)));
    assert(p_term(b, n + 1) == Ok::<(Term, int), (int, Seq<char>)>((mul, len)));
    assert(p_expr_rest(b, nx, n) == Ok::<(Term, int), (int, Seq<char>)>((t, len)));
    assert(p_expr(b, 0) == Ok::<(Term, int), (int, Seq<char>)>((t, len)));
}

/// A product comes first when written first: for any names, `x*y+z`
/// parses as the product of `x` and `y`, plus `z`.
pub proof fn a_product_is_added_whole(x: Seq<u8>, y: Seq<u8>, z: Seq<u8>)
    requires
        is_name(x),
        is_name(y),
        is_name(z),
    ensures
        parse_spec(three(x, 0x2Au8, y, 0x2Bu8, z)) == Ok::<Term, (int, Seq<char>)>(Term::Add(
            Box::new(Term::Mul(Box::new(Term::Name(ascii_text(x))), Box::new(Term::Name(ascii_text(y))))),
            Box::new(Term::Name(ascii_text(z))),
        )),
{
    let b = three(x, 0x2Au8, y, 0x2Bu8, z);
    lemma_three(x, 0x2Au8, y, 0x2Bu8, z);
    let n = x.len() as int;
    let m = n + 1 + y.len();
    let len = b.len() as int;
    let (nx, ny, nz) = (Term::Name(ascii_text(x)), Term::Name(ascii_text(y)), Term::Name(ascii_text(z)));
    let mul = Term::Mul(Box::new(nx), Box::new(ny));
    let t = Term::Add(Box::new(mul), Box::new(nz));
    lemma_name_unary(b, 0, x);
    lemma_name_unary(b, n + 1, y);
    lemma_name_term(b, m + 1, z);
    lemma_at_end(b, t);
    assert(p_term_rest(b, mul, m) == Ok::<(Term, int), (int, Seq<char>)>((mul, m)));
    assert(p_term_rest(b, nx, n) == Ok::<(Term, int), (int, Seq<char>)>((mul, m)));
    assert(p_term(b, 0) == Ok::<(Term, int), (int, Seq<char>)>((mul, m)));
    assert(p_expr_rest(b, mul, m) == Ok::<(Term, int), (int, Seq<char>)>((t, len)));
    assert(p_expr(b, 0) == Ok::<(Term, int), (int, Seq<char>)>((t, len)));
}

/// Subtraction groups to the left: for any names, `x-y-z` parses as
/// `x` minus `y`, then minus `z`.
pub proof fn minus_groups_to_the_left(x: Seq<u8>, y: Seq<u8>, z: Seq<u8>)
    requires
        is_name(x),
        is_name(y),
        is_name(z),
    ensures
        parse_spec(three(x, 0x2Du8, y, 0x2Du8, z)) == Ok::<Term, (int, Seq<char>)>(Term::Sub(
            Box::new(Term::Sub(Box::new(Term::Name(ascii_text(x))), Box::new(Term::Name(ascii_text(y))))),
            Box::new(Term::Name(ascii_text(z))),
        )),
{
    let b = three(x, 0x2Du8, y, 0x2Du8, z);
    lemma_three(x, 0x2Du8, y, 0x2Du8, z);
    let n = x.len() as int;
    let m = n + 1 + y.len();
    let len = b.len() as int;
    let (nx, ny, nz) = (Term::Name(ascii_text(x)), Term::Name(ascii_text(y)), Term::Name(ascii_text(z)));
    let first = Term::Sub(Box::new(nx), Box::new(ny));
    let t = Term::Sub(Box::new(first), Box::new(nz));
    lemma_name_term(b, 0, x);
    lemma_name_term(b, n + 1, y);
    lemma_name_term(b, m + 1, z);
    lemma_at_end(b, t);
    assert(p_expr_rest(b, first, m) == Ok::<(Term, int), (int, Seq<char>)>((t, len)));
    assert(p_expr_rest(b, nx, n) == Ok::<(Term, int), (int, Seq<char>)>((t, len)));
    assert(p_expr(b, 0) == Ok::<(Term, int), (int, Seq<char>)>((t, len)));
}

/// Powers group to the right: for any names, `x^y^z` parses as `x` to
/// the power `y^z`.
pub proof fn power_groups_to_the_right(x: Seq<u8>, y: Seq<u8>, z: Seq<u8>)
    requires
        is_name(x),
        is_name(y),
        is_name(z),
    ensures
        parse_spec(three(x, 0x5Eu8, y, 0x5Eu8, z)) == Ok::<Term, (int, Seq<char>)>(Term::Pow(
            Box::new(Term::Name(ascii_text(x))),
            Box::new(Term::Pow(Box::new(Term::Name(ascii_text(y))), Box::new(Term::Name(ascii_text(z))))),
        )),
{
    let b = three(x, 0x5Eu8, y, 0x5Eu8, z);
    lemma_three(x, 0x5Eu8, y, 0x5Eu8, z);
    let n = x.len() as int;
    let m = n + 1 + y.len();
    let len = b.len() as int;
    let (nx, ny, nz) = (Term::Name(ascii_text(x)), Term::Name(ascii_text(y)), Term::Name(ascii_text(z)));
    let inner = Term::Pow(Box::new(ny), Box::new(nz));
    let t = Term::Pow(Box::new(nx), Box::new(inner));
    lemma_name_atom(b, 0, x);
    lemma_name_atom(b, n + 1, y);
    lemma_name_unary(b, m + 1, z);
    lemma_at_end(b, t);
    assert(b[n + 1] == y[0]);
    assert(skip_ws(b, n + 1) == n + 1);
    assert(p_power(b, n + 1) == Ok::<(Term, int), (int, Seq<char>)>((inner, len)));
    assert(p_unary(b, n + 1) == Ok::<(Term, int), (int, Seq<char>)>((inner, len)));
    assert(p_power(b, 0) == Ok::<(Term, int), (int, Seq<char>)>((t, len)));
    assert(b[0] == x[0]);
    assert(skip_ws(b, 0) == 0);
    assert(p_unary(b, 0) == Ok::<(Term, int), (int, Seq<char>)>((t, len)));
    assert(p_term(b, 0) == Ok::<(Term, int), (int, Seq<char>)>((t, len)));
    assert(p_expr(b, 0) == Ok::<(Term, int), (int, Seq<char>)>((t, len)));
}

} // verus!
