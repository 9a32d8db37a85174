//! Properties that relate the operations of the store to each other.
use vstd::prelude::*;
use crate::date::CalendarDate;
use crate::display_order::{at_positions, key_lt, ordered_selection};
use crate::entity::{ListOptions, Model, TodoStatus};
use crate::ordering::{bottom_done_index, bottom_pending_index, lemma_max_index, lemma_min_index, top_index};
use crate::service::{
    child_count, done_scope, has_id, is_overdue, matches_filter, pos_of, record_of,
    overdue_order, resolved_project, rolled_over, store_wf,
};
use crate::error::TodoError;

verus! {

/// In an ordered selection, a record shown before another comes first.
pub proof fn lemma_selection_follows_key(
    s: Seq<Model>,
    sel: spec_fn(Model) -> bool,
    ps: Seq<usize>,
    ka: int,
    kb: int,
)
    requires
        ordered_selection(s, sel, ps),
        0 <= ka < ps.len(),
        0 <= kb < ps.len(),
        key_lt(s, ps[kb] as int, ps[ka] as int),
    ensures
        kb < ka,
{
    if ka < kb {
        assert(key_lt(s, ps[ka] as int, ps[kb] as int));
    }
}

/// Records added one after another at the top of the pending records of one
/// scope (each taking `top_index` of the store before it) have strictly
/// decreasing indices, and a listing of that scope shows them last-in first.
pub proof fn lemma_top_inserts_lifo(
    s: Seq<Model>,
    start: int,
    scope: Option<CalendarDate>,
    opts: ListOptions,
    ps: Seq<usize>,
)
    requires
        0 <= start <= s.len(),
        forall|k: int|
            start <= k < s.len() ==> (#[trigger] s[k]).scheduled_for == scope && !s[k].is_done()
                && s[k].order_index == top_index(s.subrange(0, k), scope),
        ordered_selection(s, |m: Model| matches_filter(m, opts), ps),
    ensures
        forall|a: int, b: int|
            start <= a < b < s.len() ==> (#[trigger] s[b]).order_index < (#[trigger] s[a]).order_index,
        forall|ka: int, kb: int|
            0 <= ka < ps.len() && 0 <= kb < ps.len() && start <= #[trigger] ps[ka] < #[trigger] ps[kb] ==> kb < ka,
{
    assert forall|a: int, b: int|
        start <= a < b < s.len() implies (#[trigger] s[b]).order_index < (#[trigger] s[a]).order_index by {
        let pre = s.subrange(0, b);
        lemma_min_index(pre, scope, true);
        assert(pre[a] == s[a]);
        assert(crate::ordering::in_partition(pre[a], scope, true));
    }
    assert forall|ka: int, kb: int|
        0 <= ka < ps.len() && 0 <= kb < ps.len() && start <= #[trigger] ps[ka] < #[trigger] ps[kb] implies kb < ka by {
        let a = ps[ka] as int;
        let b = ps[kb] as int;
        assert(s[b].order_index < s[a].order_index);
        lemma_selection_follows_key(s, |m: Model| matches_filter(m, opts), ps, ka, kb);
    }
}

/// One more `add` keeps the hypothesis of `lemma_top_inserts_lifo`: where the
/// records from `start` on were each added at the top of `scope`, a record that
/// `add` appends there with `top_index` of the store before it (as `add`
/// ensures) extends that run, so the law holds after any number of adds.
pub proof fn lemma_top_insert_extends(
    s: Seq<Model>,
    start: int,
    scope: Option<CalendarDate>,
    m: Model,
)
    requires
        0 <= start <= s.len(),
        forall|k: int|
            start <= k < s.len() ==> (#[trigger] s[k]).scheduled_for == scope && !s[k].is_done()
                && s[k].order_index == top_index(s.subrange(0, k), scope),
        m.scheduled_for == scope,
        !m.is_done(),
        m.order_index == top_index(s, scope),
    ensures
        forall|k: int|
            start <= k < s.push(m).len() ==> (#[trigger] s.push(m)[k]).scheduled_for == scope
                && !s.push(m)[k].is_done() && s.push(m)[k].order_index == top_index(
                s.push(m).subrange(0, k),
                scope,
            ),
{
    let t = s.push(m);
    assert forall|k: int| start <= k < t.len() implies (#[trigger] t[k]).scheduled_for == scope
        && !t[k].is_done() && t[k].order_index == top_index(t.subrange(0, k), scope) by {
        if k < s.len() {
            assert(t.subrange(0, k) == s.subrange(0, k));
            assert(t[k] == s[k]);
        } else {
            assert(t.subrange(0, k) == s);
        }
    }
}

/// A pending record moved to the bottom of `scope` (taking
/// `bottom_pending_index` of the store before the move, as `move_to_scope`
/// ensures) gets an index above every other pending record there. So records
/// moved there one after another have strictly increasing indices, and a
/// listing of the scope shows each after all pending records that were there
/// before it.
pub proof fn lemma_bottom_move_exceeds(
    s: Seq<Model>,
    p: int,
    m: Model,
    scope: Option<CalendarDate>,
    opts: ListOptions,
    ps: Seq<usize>,
)
    requires
        0 <= p < s.len(),
        m.scheduled_for == scope,
        !m.is_done(),
        m.order_index == bottom_pending_index(s, scope),
        ordered_selection(s.update(p, m), |r: Model| matches_filter(r, opts), ps),
    ensures
        forall|q: int|
            0 <= q < s.len() && q != p && (#[trigger] s.update(p, m)[q]).scheduled_for == scope
                && !s.update(p, m)[q].is_done() ==> s.update(p, m)[q].order_index < m.order_index,
        forall|ka: int, kb: int|
            0 <= ka < ps.len() && 0 <= kb < ps.len() && #[trigger] ps[kb] == p && (
            #[trigger] s.update(p, m)[ps[ka] as int]).scheduled_for == scope && !s.update(
                p,
                m,
            )[ps[ka] as int].is_done() && ps[ka] != p ==> ka < kb,
{
    let t = s.update(p, m);
    lemma_max_index(s, scope, true);
    assert forall|q: int|
        0 <= q < s.len() && q != p && (#[trigger] t[q]).scheduled_for == scope && !t[q].is_done()
            implies t[q].order_index < m.order_index by {
        assert(t[q] == s[q]);
        assert(crate::ordering::in_partition(s[q], scope, true));
    }
    assert forall|ka: int, kb: int|
        0 <= ka < ps.len() && 0 <= kb < ps.len() && #[trigger] ps[kb] == p && (
        #[trigger] t[ps[ka] as int]).scheduled_for == scope && !t[ps[ka] as int].is_done() && ps[ka]
            != p implies ka < kb by {
        let q = ps[ka] as int;
        assert(t[q].order_index < m.order_index);
        assert(t[p] == m);
        lemma_selection_follows_key(t, |r: Model| matches_filter(r, opts), ps, kb, ka);
    }
}

/// Records entering the bottom of the pending records of one scope one after
/// another (each taking `bottom_pending_index` of the store before it) have
/// strictly increasing indices, and a listing of that scope shows them
/// first-in first.
pub proof fn lemma_bottom_inserts_fifo(
    s: Seq<Model>,
    start: int,
    scope: Option<CalendarDate>,
    opts: ListOptions,
    ps: Seq<usize>,
)
    requires
        0 <= start <= s.len(),
        forall|k: int|
            start <= k < s.len() ==> (#[trigger] s[k]).scheduled_for == scope && !s[k].is_done()
                && s[k].order_index == bottom_pending_index(s.subrange(0, k), scope),
        ordered_selection(s, |m: Model| matches_filter(m, opts), ps),
    ensures
        forall|a: int, b: int|
            start <= a < b < s.len() ==> (#[trigger] s[a]).order_index < (#[trigger] s[b]).order_index,
        forall|ka: int, kb: int|
            0 <= ka < ps.len() && 0 <= kb < ps.len() && start <= #[trigger] ps[ka] < #[trigger] ps[kb] ==> ka < kb,
{
    assert forall|a: int, b: int|
        start <= a < b < s.len() implies (#[trigger] s[a]).order_index < (#[trigger] s[b]).order_index by {
        let pre = s.subrange(0, b);
        lemma_max_index(pre, scope, true);
        assert(pre[a] == s[a]);
        assert(crate::ordering::in_partition(pre[a], scope, true));
    }
    assert forall|ka: int, kb: int|
        0 <= ka < ps.len() && 0 <= kb < ps.len() && start <= #[trigger] ps[ka] < #[trigger] ps[kb] implies ka < kb by {
        let a = ps[ka] as int;
        let b = ps[kb] as int;
        assert(s[a].order_index < s[b].order_index);
        lemma_selection_follows_key(s, |m: Model| matches_filter(m, opts), ps, kb, ka);
    }
}

/// A listing shows every pending record before every done one.
pub proof fn lemma_pending_before_done(
    s: Seq<Model>,
    opts: ListOptions,
    ps: Seq<usize>,
    out: Seq<Model>,
)
    requires
        ordered_selection(s, |m: Model| matches_filter(m, opts), ps),
        out == at_positions(s, ps),
    ensures
        forall|a: int, b: int|
            0 <= a < b < out.len() && (#[trigger] out[a]).is_done() ==> (#[trigger] out[b]).is_done(),
{
    assert forall|a: int, b: int|
        0 <= a < b < out.len() && (#[trigger] out[a]).is_done() implies (#[trigger] out[b]).is_done() by {
        assert(key_lt(s, ps[a] as int, ps[b] as int));
    }
}

/// After a rollover to `today` no record is overdue, so a second rollover to
/// the same day selects nothing; the moved records keep their relative order.
pub proof fn lemma_rollover_settles(
    s: Seq<Model>,
    t: Seq<Model>,
    ps: Seq<usize>,
    today: CalendarDate,
    base: int,
)
    requires
        s.len() <= usize::MAX,
        overdue_order(s, today, ps),
        rolled_over(s, t, ps, today, base),
        base + ps.len() <= i64::MAX,
        base >= i64::MIN,
    ensures
        forall|p: int| 0 <= p < t.len() ==> !is_overdue(#[trigger] t[p], today),
        forall|ps2: Seq<usize>| #[trigger] overdue_order(t, today, ps2) ==> ps2.len() == 0,
        forall|k1: int, k2: int|
            0 <= k1 < k2 < ps.len() ==> t[#[trigger] ps[k1] as int].order_index < t[
                #[trigger] ps[k2] as int].order_index && key_lt(s, ps[k1] as int, ps[k2] as int),
{
    assert forall|p: int| 0 <= p < t.len() implies !is_overdue(#[trigger] t[p], today) by {
        if ps.contains(p as usize) {
            let k = choose|k: int| 0 <= k < ps.len() && ps[k] == p as usize;
            assert(t[ps[k] as int].scheduled_for == Some(today));
        } else {
            assert(t[p] == s[p]);
            if is_overdue(s[p], today) {
                let f = |m: Model| is_overdue(m, today);
                assert(f(s[p]));
            }
        }
    }
    assert forall|ps2: Seq<usize>| #[trigger] overdue_order(t, today, ps2) implies ps2.len() == 0 by {
        if ps2.len() > 0 {
            assert(is_overdue(t[ps2[0] as int], today));
        }
    }
    assert forall|k1: int, k2: int| 0 <= k1 < k2 < ps.len() implies t[#[trigger] ps[k1] as int].order_index
        < t[#[trigger] ps[k2] as int].order_index && key_lt(s, ps[k1] as int, ps[k2] as int) by {
        assert(t[ps[k1] as int].order_index == base + 1 + k1);
        assert(t[ps[k2] as int].order_index == base + 1 + k2);
    }
}

pub proof fn lemma_child_count_append(a: Seq<Model>, b: Seq<Model>, id: u128)
    ensures
        child_count(a + b, id) == child_count(a, id) + child_count(b, id),
    decreases b.len(),
{
    if b.len() == 0 {
        assert(a + b == a);
    } else {
        lemma_child_count_append(a, b.drop_last(), id);
        assert((a + b).drop_last() == a + b.drop_last());
    }
}

proof fn lemma_child_count_split(s: Seq<Model>, p: int, id: u128)
    requires
        0 <= p < s.len(),
    ensures
        child_count(s, id) == child_count(s.subrange(0, p), id) + child_count(seq![s[p]], id)
            + child_count(s.subrange(p + 1, s.len() as int), id),
{
    let l = s.subrange(0, p);
    let r = s.subrange(p + 1, s.len() as int);
    assert(s == l + seq![s[p]] + r);
    lemma_child_count_append(l + seq![s[p]], r, id);
    lemma_child_count_append(l, seq![s[p]], id);
    assert(seq![s[p]].drop_last() == Seq::<Model>::empty());
}

/// Deleting one child of `epic`, or pointing it at another epic, lowers the
/// number of records that block deleting `epic` by exactly one.
pub proof fn lemma_child_removal_lowers_count(s: Seq<Model>, p: int, m: Model, epic: u128)
    requires
        0 <= p < s.len(),
        s[p].epic_id == Some(epic),
        m.epic_id != Some(epic),
    ensures
        child_count(s.remove(p), epic) == child_count(s, epic) - 1,
        child_count(s.update(p, m), epic) == child_count(s, epic) - 1,
{
    lemma_child_count_split(s, p, epic);
    let t = s.update(p, m);
    lemma_child_count_split(t, p, epic);
    assert(t.subrange(0, p) == s.subrange(0, p));
    assert(t.subrange(p + 1, t.len() as int) == s.subrange(p + 1, s.len() as int));
    assert(seq![t[p]].drop_last() == Seq::<Model>::empty());
    assert(seq![s[p]].drop_last() == Seq::<Model>::empty());
    let u = s.remove(p);
    assert(u =~= s.subrange(0, p) + s.subrange(p + 1, s.len() as int));
    lemma_child_count_append(s.subrange(0, p), s.subrange(p + 1, s.len() as int), epic);
    let one = seq![s[p]];
    assert(one.drop_last() =~= Seq::<Model>::empty());
    assert(one.last() == s[p]);
    assert(child_count(Seq::<Model>::empty(), epic) == 0);
    assert(child_count(one, epic) == 1);
    assert(child_count(u, epic) == child_count(s.subrange(0, p), epic) + child_count(
        s.subrange(p + 1, s.len() as int),
        epic,
    ));
}

/// Linking to an epic without a project inherits the epic's project exactly; a
/// different given project is refused naming both; an equal one is kept.
pub proof fn lemma_epic_project_resolution(s: Seq<Model>, epic: u128, given: String)
    requires
        has_id(s, epic),
    ensures
        resolved_project(s, None, Some(epic)) == Ok::<Option<String>, TodoError>(
            record_of(s, epic).project,
        ),
        record_of(s, epic).project is Some && given@ != record_of(s, epic).project.unwrap()@
            ==> resolved_project(s, Some(given), Some(epic)) == Err::<Option<String>, TodoError>(
            TodoError::ProjectMismatch(given, record_of(s, epic).project.unwrap()),
        ),
        record_of(s, epic).project is Some && given@ == record_of(s, epic).project.unwrap()@ ==> resolved_project(
            s,
            Some(given),
            Some(epic),
        ) == Ok::<Option<String>, TodoError>(Some(given)),
{
}

/// Marking a pending record done and then pending again keeps its title,
/// notes and project, leaves it pending in the scope it was marked done in, and
/// gives it first the bottom index of that scope and then its top index.
pub proof fn lemma_done_then_pending(
    s0: Seq<Model>,
    id: u128,
    today: CalendarDate,
    m1: Model,
    m2: Model,
)
    requires
        store_wf(s0),
        has_id(s0, id),
        !record_of(s0, id).is_done(),
        m1 == (Model {
            status: TodoStatus::Done,
            scheduled_for: done_scope(record_of(s0, id), today),
            order_index: bottom_done_index(s0, done_scope(record_of(s0, id), today)) as i64,
            updated_at: m1.updated_at,
            ..record_of(s0, id)
        }),
        m2 == (Model {
            status: TodoStatus::Pending,
            order_index: top_index(
                s0.update(pos_of(s0, id), m1),
                record_of(s0.update(pos_of(s0, id), m1), id).scheduled_for,
            ) as i64,
            updated_at: m2.updated_at,
            ..record_of(s0.update(pos_of(s0, id), m1), id)
        }),
    ensures
        m2.title == record_of(s0, id).title,
        m2.notes == record_of(s0, id).notes,
        m2.project == record_of(s0, id).project,
        m1.is_done() && !m2.is_done(),
        m2.scheduled_for == done_scope(record_of(s0, id), today),
        m2.order_index == top_index(
            s0.update(pos_of(s0, id), m1),
            done_scope(record_of(s0, id), today),
        ) as i64,
{
    let p = pos_of(s0, id);
    let s1 = s0.update(p, m1);
    assert(s1[p].id == id);
    assert(has_id(s1, id));
    let q = pos_of(s1, id);
    if q != p {
        assert(s0[q].id == s1[q].id);
    }
}

} // verus!
