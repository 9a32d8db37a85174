//! Sparse insertion indices: the index a record takes when it enters a column,
//! computed from the extrema of the indices already stored there.
use vstd::prelude::*;
use crate::date::CalendarDate;
use crate::entity::{Model, TodoStatus};

verus! {

/// A record counts towards a partition when it sits in `scope` and, where
/// `pending_only` holds, is not done.
pub open spec fn in_partition(r: Model, scope: Option<CalendarDate>, pending_only: bool) -> bool {
    r.scheduled_for == scope && (!pending_only || !r.is_done())
}

/// Least index among the records of a partition, if it has any.
pub open spec fn min_index(s: Seq<Model>, scope: Option<CalendarDate>, pending_only: bool) -> Option<
    i64,
>
    decreases s.len(),
{
    if s.len() == 0 {
        None
    } else {
        let rest = min_index(s.drop_last(), scope, pending_only);
        let x = s.last().order_index;
        if in_partition(s.last(), scope, pending_only) {
            match rest {
                Some(m) => Some(if x < m { x } else { m }),
                None => Some(x),
            }
        } else {
            rest
        }
    }
}

/// Greatest index among the records of a partition, if it has any.
pub open spec fn max_index(s: Seq<Model>, scope: Option<CalendarDate>, pending_only: bool) -> Option<
    i64,
>
    decreases s.len(),
{
    if s.len() == 0 {
        None
    } else {
        let rest = max_index(s.drop_last(), scope, pending_only);
        let x = s.last().order_index;
        if in_partition(s.last(), scope, pending_only) {
            match rest {
                Some(m) => Some(if x > m { x } else { m }),
                None => Some(x),
            }
        } else {
            rest
        }
    }
}

/// Index for a record entering the top of the pending partition of `scope`:
/// one below the least pending index, or 0 when there is none.
pub open spec fn top_index(s: Seq<Model>, scope: Option<CalendarDate>) -> int {
    match min_index(s, scope, true) {
        Some(m) => m - 1,
        None => 0,
    }
}

/// Index for a record entering the bottom of the pending partition of `scope`:
/// one above the greatest pending index, or 0 when there is none.
pub open spec fn bottom_pending_index(s: Seq<Model>, scope: Option<CalendarDate>) -> int {
    match max_index(s, scope, true) {
        Some(m) => m + 1,
        None => 0,
    }
}

/// Index for a record that becomes done in `scope`: one above the greatest
/// index of any status there, or 0 when the scope is empty.
pub open spec fn bottom_done_index(s: Seq<Model>, scope: Option<CalendarDate>) -> int {
    match max_index(s, scope, false) {
        Some(m) => m + 1,
        None => 0,
    }
}

pub open spec fn fits_i64(x: int) -> bool {
    i64::MIN <= x <= i64::MAX
}

/// The least index of a partition is the index of one of its records and no
/// more than any of them; it is absent exactly when the partition is empty.
pub proof fn lemma_min_index(s: Seq<Model>, scope: Option<CalendarDate>, pending_only: bool)
    ensures
        min_index(s, scope, pending_only) is None <==> forall|i: int|
            0 <= i < s.len() ==> !in_partition(#[trigger] s[i], scope, pending_only),
        min_index(s, scope, pending_only) matches Some(m) ==> (exists|i: int|
            0 <= i < s.len() && in_partition(#[trigger] s[i], scope, pending_only)
                && s[i].order_index == m),
        min_index(s, scope, pending_only) matches Some(m) ==> (forall|i: int|
            0 <= i < s.len() && in_partition(#[trigger] s[i], scope, pending_only) ==> m
                <= s[i].order_index),
    decreases s.len(),
{
    if s.len() > 0 {
        let t = s.drop_last();
        lemma_min_index(t, scope, pending_only);
        assert forall|i: int| 0 <= i < t.len() implies t[i] == s[i] by {}
        if let Some(m) = min_index(s, scope, pending_only) {
            if in_partition(s.last(), scope, pending_only) && (min_index(t, scope, pending_only) is None
                || s.last().order_index < min_index(t, scope, pending_only).unwrap()) {
                assert(s[s.len() - 1] == s.last());
            } else {
                let i = choose|i: int|
                    0 <= i < t.len() && in_partition(t[i], scope, pending_only) && t[i].order_index
                        == m;
                assert(s[i] == t[i]);
            }
        }
    }
}

/// The greatest index of a partition is the index of one of its records and no
/// less than any of them; it is absent exactly when the partition is empty.
pub proof fn lemma_max_index(s: Seq<Model>, scope: Option<CalendarDate>, pending_only: bool)
    ensures
        max_index(s, scope, pending_only) is None <==> forall|i: int|
            0 <= i < s.len() ==> !in_partition(#[trigger] s[i], scope, pending_only),
        max_index(s, scope, pending_only) matches Some(m) ==> (exists|i: int|
            0 <= i < s.len() && in_partition(#[trigger] s[i], scope, pending_only)
                && s[i].order_index == m),
        max_index(s, scope, pending_only) matches Some(m) ==> (forall|i: int|
            0 <= i < s.len() && in_partition(#[trigger] s[i], scope, pending_only) ==> s[i].order_index
                <= m),
    decreases s.len(),
{
    if s.len() > 0 {
        let t = s.drop_last();
        lemma_max_index(t, scope, pending_only);
        assert forall|i: int| 0 <= i < t.len() implies t[i] == s[i] by {}
        if let Some(m) = max_index(s, scope, pending_only) {
            if in_partition(s.last(), scope, pending_only) && (max_index(t, scope, pending_only) is None
                || s.last().order_index > max_index(t, scope, pending_only).unwrap()) {
                assert(s[s.len() - 1] == s.last());
            } else {
                let i = choose|i: int|
                    0 <= i < t.len() && in_partition(t[i], scope, pending_only) && t[i].order_index
                        == m;
                assert(s[i] == t[i]);
            }
        }
    }
}

pub fn same_scope(a: Option<CalendarDate>, b: Option<CalendarDate>) -> (r: bool)
    ensures
        r == (a == b),
{
    match (a, b) {
        (Some(x), Some(y)) => x == y,
        (None, None) => true,
        _ => false,
    }
}

pub fn counts_in(r: &Model, scope: Option<CalendarDate>, pending_only: bool) -> (b: bool)
    ensures
        b == in_partition(*r, scope, pending_only),
{
    same_scope(r.scheduled_for, scope) && (!pending_only || r.status == TodoStatus::Pending)
}

/// The least or the greatest index of a partition.
fn find_order_index(
    todos: &Vec<Model>,
    scope: Option<CalendarDate>,
    pending_only: bool,
    want_max: bool,
) -> (r: Option<i64>)
    ensures
        want_max ==> r == max_index(todos@, scope, pending_only),
        !want_max ==> r == min_index(todos@, scope, pending_only),
{
    let mut acc: Option<i64> = None;
    let mut i: usize = 0;
    while i < todos.len()
        invariant
            i <= todos.len(),
            want_max ==> acc == max_index(todos@.subrange(0, i as int), scope, pending_only),
            !want_max ==> acc == min_index(todos@.subrange(0, i as int), scope, pending_only),
        decreases todos.len() - i,
    {
        let r = &todos[i];
        assert(todos@.subrange(0, i + 1).drop_last() =~= todos@.subrange(0, i as int));
        if counts_in(r, scope, pending_only) {
            let x = r.order_index;
            acc = match acc {
                Some(m) => Some(
                    if want_max {
                        if x > m { x } else { m }
                    } else {
                        if x < m { x } else { m }
                    },
                ),
                None => Some(x),
            };
        }
        i += 1;
    }
    assert(todos@.subrange(0, todos.len() as int) =~= todos@);
    acc
}

/// `topIndex`: the least pending index of `scope` minus one, or 0; `None` when
/// that value leaves the range of `i64`.
pub fn next_top_order_index(todos: &Vec<Model>, scope: Option<CalendarDate>) -> (r: Option<i64>)
    ensures
        fits_i64(top_index(todos@, scope)) ==> r == Some(top_index(todos@, scope) as i64),
        !fits_i64(top_index(todos@, scope)) ==> r is None,
{
    match find_order_index(todos, scope, true, false) {
        Some(m) => m.checked_sub(1),
        None => Some(0),
    }
}

/// `bottomPendingIndex`: the greatest pending index of `scope` plus one, or 0;
/// `None` when that value leaves the range of `i64`.
pub fn next_pending_bottom_index(todos: &Vec<Model>, scope: Option<CalendarDate>) -> (r: Option<
    i64,
>)
    ensures
        fits_i64(bottom_pending_index(todos@, scope)) ==> r == Some(
            bottom_pending_index(todos@, scope) as i64,
        ),
        !fits_i64(bottom_pending_index(todos@, scope)) ==> r is None,
{
    match find_order_index(todos, scope, true, true) {
        Some(m) => m.checked_add(1),
        None => Some(0),
    }
}

/// `bottomDoneIndex`: the greatest index of any status in `scope` plus one, or 0;
/// `None` when that value leaves the range of `i64`.
pub fn next_done_order_index(todos: &Vec<Model>, scope: Option<CalendarDate>) -> (r: Option<i64>)
    ensures
        fits_i64(bottom_done_index(todos@, scope)) ==> r == Some(
            bottom_done_index(todos@, scope) as i64,
        ),
        !fits_i64(bottom_done_index(todos@, scope)) ==> r is None,
{
    match find_order_index(todos, scope, false, true) {
        Some(m) => m.checked_add(1),
        None => Some(0),
    }
}

} // verus!
