//! The todo store and its operation set.
use vstd::prelude::*;
use crate::date::CalendarDate;
use crate::display_order::{at_positions, ordered_selection, sort_positions};
use crate::entity::{
    copy_opt_string, opt_str_view, ListOptions, ListScope, Model, MovePlacement, ProjectFilter,
    ReorderDirection, TodoStatus,
};
use crate::error::TodoError;
use crate::ids::fresh_id;
use crate::ordering::{
    bottom_done_index, bottom_pending_index, fits_i64, next_done_order_index,
    next_pending_bottom_index, next_top_order_index, min_index, same_scope, top_index,
};
use std::collections::HashMap;

verus! {

/// Some record of the store has the identifier `id`.
pub open spec fn has_id(s: Seq<Model>, id: u128) -> bool {
    exists|i: int| 0 <= i < s.len() && (#[trigger] s[i]).id == id
}

/// The position of the record with identifier `id`, where there is one.
pub open spec fn pos_of(s: Seq<Model>, id: u128) -> int {
    choose|i: int| 0 <= i < s.len() && (#[trigger] s[i]).id == id
}

/// The record with identifier `id`, where there is one.
pub open spec fn record_of(s: Seq<Model>, id: u128) -> Model {
    s[pos_of(s, id)]
}

pub open spec fn unique_ids(s: Seq<Model>) -> bool {
    forall|i: int, j: int|
        0 <= i < s.len() && 0 <= j < s.len() && (#[trigger] s[i]).id == (#[trigger] s[j]).id ==> i
            == j
}

/// Every epic link names another record that is in the store.
pub open spec fn links_resolve(s: Seq<Model>) -> bool {
    forall|i: int|
        0 <= i < s.len() ==> match (#[trigger] s[i]).epic_id {
            Some(e) => e != s[i].id && has_id(s, e),
            None => true,
        }
}

/// The store's invariant: identifiers are unique, and epic links are neither
/// self-loops nor dangling.
pub open spec fn store_wf(s: Seq<Model>) -> bool {
    unique_ids(s) && links_resolve(s)
}

/// Number of records whose epic link names `id`.
pub open spec fn child_count(s: Seq<Model>, id: u128) -> nat
    decreases s.len(),
{
    if s.len() == 0 {
        0
    } else {
        child_count(s.drop_last(), id) + if s.last().epic_id == Some(id) {
            1nat
        } else {
            0nat
        }
    }
}

/// The project a record takes when linked to `epic_id` with `project` given, or
/// the error that rejects the link.
pub open spec fn resolved_project(s: Seq<Model>, project: Option<String>, epic_id: Option<u128>) -> Result<
    Option<String>,
    TodoError,
> {
    match epic_id {
        None => Ok(project),
        Some(e) => if !has_id(s, e) {
            Err(TodoError::EpicNotFound(e))
        } else {
            let epic_project = record_of(s, e).project;
            match project {
                None => Ok(epic_project),
                Some(p) => match epic_project {
                    Some(q) => if p@ != q@ {
                        Err(TodoError::ProjectMismatch(p, q))
                    } else {
                        Ok(project)
                    },
                    None => Ok(project),
                },
            }
        },
    }
}

pub proof fn lemma_record_of(s: Seq<Model>, p: int)
    requires
        unique_ids(s),
        0 <= p < s.len(),
    ensures
        has_id(s, s[p].id),
        pos_of(s, s[p].id) == p,
        record_of(s, s[p].id) == s[p],
{
    assert(has_id(s, s[p].id));
}

/// A record passes the filters of `opts`.
pub open spec fn matches_filter(r: Model, opts: ListOptions) -> bool {
    &&& r.scheduled_for == opts.scope.spec_date()
    &&& opts.include_done || !r.is_done()
    &&& project_passes(r.project, opts.project)
    &&& match opts.epic_id {
        Some(e) => r.epic_id == Some(e),
        None => true,
    }
}

/// A pending record scheduled for a day strictly before `today`.
pub open spec fn is_overdue(r: Model, today: CalendarDate) -> bool {
    &&& r.scheduled_for matches Some(d) && d.spec_before(today)
    &&& !r.is_done()
}

/// `ps` lists, in display order, the positions of the records of `s` that pass
/// the filters of `opts`.
pub open spec fn listing_order(s: Seq<Model>, opts: ListOptions, ps: Seq<usize>) -> bool {
    ordered_selection(s, |m: Model| matches_filter(m, opts), ps)
}

/// `ps` lists, in display order, the positions of the overdue records of `s`.
pub open spec fn overdue_order(s: Seq<Model>, today: CalendarDate, ps: Seq<usize>) -> bool {
    ordered_selection(s, |m: Model| is_overdue(m, today), ps)
}

/// Two records share a scope and a status.
pub open spec fn same_partition(r: Model, t: Model) -> bool {
    r.scheduled_for == t.scheduled_for && r.status == t.status
}

/// Which records a scan of the store collects.
enum Selector<'a> {
    Filter(&'a ListOptions),
    Overdue(CalendarDate),
    Partition(Option<CalendarDate>, TodoStatus),
}

spec fn accepts(sel: Selector, r: Model) -> bool {
    match sel {
        Selector::Filter(opts) => matches_filter(r, *opts),
        Selector::Overdue(today) => is_overdue(r, today),
        Selector::Partition(scope, status) => r.scheduled_for == scope && r.status == status,
    }
}

pub open spec fn project_passes(project: Option<String>, filter: ProjectFilter) -> bool {
    match filter {
        ProjectFilter::Any => true,
        ProjectFilter::Equals(p) => opt_str_view(project) == Some(p@),
        ProjectFilter::IsNull => project is None,
    }
}

fn project_matches(project: &Option<String>, filter: &ProjectFilter) -> (b: bool)
    ensures
        b == project_passes(*project, *filter),
{
    match filter {
        ProjectFilter::Any => true,
        ProjectFilter::Equals(p) => match project {
            Some(q) => q.eq(p),
            None => false,
        },
        ProjectFilter::IsNull => project.is_none(),
    }
}

fn accepts_exec(sel: &Selector, r: &Model) -> (b: bool)
    ensures
        b == accepts(*sel, *r),
{
    match sel {
        Selector::Filter(opts) => {
            same_scope(r.scheduled_for, opts.scope.date()) && (opts.include_done || r.status
                == TodoStatus::Pending) && project_matches(&r.project, &opts.project) && match opts.epic_id {
                Some(e) => r.epic_id == Some(e),
                None => true,
            }
        },
        Selector::Overdue(today) => match r.scheduled_for {
            Some(d) => d.before(today) && r.status == TodoStatus::Pending,
            None => false,
        },
        Selector::Partition(scope, status) => same_scope(r.scheduled_for, *scope) && r.status
            == *status,
    }
}

/// The scope a record lands in when it becomes done: its own day, or `today`
/// for a backlog record.
pub open spec fn done_scope(r: Model, today: CalendarDate) -> Option<CalendarDate> {
    match r.scheduled_for {
        Some(d) => Some(d),
        None => Some(today),
    }
}

/// The index a record takes when moved into `target` at `placement`.
pub open spec fn move_index(
    s: Seq<Model>,
    r: Model,
    target: Option<CalendarDate>,
    placement: MovePlacement,
) -> int {
    match placement {
        MovePlacement::Top => top_index(s, target),
        MovePlacement::Bottom => if r.is_done() {
            bottom_done_index(s, target)
        } else {
            bottom_pending_index(s, target)
        },
    }
}

/// Position, within the ordered siblings, of the neighbour that a reorder
/// step swaps with; `None` at the boundary.
pub open spec fn swap_partner(k: int, n: int, direction: ReorderDirection) -> Option<int> {
    match direction {
        ReorderDirection::Up => if k > 0 {
            Some(k - 1)
        } else {
            None
        },
        ReorderDirection::Down => if k + 1 < n {
            Some(k + 1)
        } else {
            None
        },
    }
}

pub open spec fn swapped(ps: Seq<usize>, a: int, b: int) -> Seq<usize> {
    ps.update(a, ps[b]).update(b, ps[a])
}

/// `t` is `s` with the record at `qs[j]` given index `j`, for each `j`, and
/// everything else unchanged but the update time.
pub open spec fn reindexed(s: Seq<Model>, t: Seq<Model>, qs: Seq<usize>) -> bool {
    &&& t.len() == s.len()
    &&& forall|j: int|
        0 <= j < qs.len() ==> #[trigger] t[qs[j] as int] == (Model {
            order_index: j as i64,
            updated_at: t[qs[j] as int].updated_at,
            ..s[qs[j] as int]
        })
    &&& forall|p: int| 0 <= p < s.len() && !qs.contains(p as usize) ==> #[trigger] t[p] == s[p]
}

/// `t` is `s` with the record at `ps[k]` moved to `today` with index
/// `base + 1 + k`, for each `k`, and everything else unchanged.
pub open spec fn rolled_over(
    s: Seq<Model>,
    t: Seq<Model>,
    ps: Seq<usize>,
    today: CalendarDate,
    base: int,
) -> bool {
    &&& t.len() == s.len()
    &&& forall|k: int|
        0 <= k < ps.len() ==> #[trigger] t[ps[k] as int] == (Model {
            scheduled_for: Some(today),
            order_index: (base + 1 + k) as i64,
            updated_at: t[ps[k] as int].updated_at,
            ..s[ps[k] as int]
        })
    &&& forall|p: int| 0 <= p < s.len() && !ps.contains(p as usize) ==> #[trigger] t[p] == s[p]
}

/// Where some record links to `id`, one of them can be named.
pub proof fn lemma_child_witness(s: Seq<Model>, id: u128)
    requires
        child_count(s, id) > 0,
    ensures
        exists|i: int| 0 <= i < s.len() && (#[trigger] s[i]).epic_id == Some(id),
    decreases s.len(),
{
    let t = s.drop_last();
    if s.last().epic_id == Some(id) {
        assert(s[s.len() - 1] == s.last());
    } else {
        lemma_child_witness(t, id);
        let i = choose|i: int| 0 <= i < t.len() && (#[trigger] t[i]).epic_id == Some(id);
        assert(s[i] == t[i]);
    }
}

/// A record that is not in a well-formed store has no children there.
pub proof fn lemma_no_dangling_children(s: Seq<Model>, id: u128)
    requires
        store_wf(s),
        !has_id(s, id),
    ensures
        child_count(s, id) == 0,
{
    if child_count(s, id) > 0 {
        lemma_child_witness(s, id);
        let i = choose|i: int| 0 <= i < s.len() && (#[trigger] s[i]).epic_id == Some(id);
        assert(has_id(s, id));
    }
}

pub proof fn lemma_no_children(s: Seq<Model>, id: u128)
    requires
        child_count(s, id) == 0,
    ensures
        forall|i: int| 0 <= i < s.len() ==> (#[trigger] s[i]).epic_id != Some(id),
    decreases s.len(),
{
    if s.len() > 0 {
        lemma_no_children(s.drop_last(), id);
        assert forall|i: int| 0 <= i < s.len() implies (#[trigger] s[i]).epic_id != Some(id) by {
            if i < s.len() - 1 {
                assert(s[i] == s.drop_last()[i]);
            }
        }
    }
}

/// The epic of the record `id`.
pub open spec fn epic_of(s: Seq<Model>, id: u128) -> Model {
    record_of(s, record_of(s, id).epic_id.unwrap())
}

/// Giving the record `id` the project `project` contradicts its epic's project.
pub open spec fn project_conflict(s: Seq<Model>, id: u128, project: Option<String>) -> bool {
    &&& project is Some
    &&& record_of(s, id).epic_id is Some
    &&& epic_of(s, id).project matches Some(q) && project.unwrap()@ != q@
}

/// Relies on chrono's `Utc::now`, as milliseconds since the Unix epoch. Nothing
/// is promised of its value.
#[verifier::external_body]
fn clock_millis() -> (r: i64) {
    chrono::Utc::now().timestamp_millis()
}

/// A store of todo records, kept as a flat collection keyed by identifier.
pub struct TodoService {
    todos: Vec<Model>,
}

impl View for TodoService {
    type V = Seq<Model>;

    closed spec fn view(&self) -> Seq<Model> {
        self.todos@
    }
}

impl TodoService {
    pub open spec fn wf(&self) -> bool {
        store_wf(self@)
    }

    /// An empty store.
    pub fn new() -> (r: TodoService)
        ensures
            r@ == Seq::<Model>::empty(),
            r.wf(),
    {
        TodoService { todos: Vec::new() }
    }

    /// A store holding `records`, in that order, where their identifiers are
    /// unique and their epic links resolve to other records among them.
    pub fn from_records(records: Vec<Model>) -> (r: Result<TodoService, TodoError>)
        ensures
            store_wf(records@) ==> (r matches Ok(s) && s@ == records@),
            !store_wf(records@) ==> (r matches Err(TodoError::Database(_))),
    {
        let n = records.len();
        let mut i: usize = 0;
        while i < n
            invariant
                n == records@.len(),
                i <= n,
                forall|a: int, b: int|
                    0 <= a < i && 0 <= b < n && (#[trigger] records@[a]).id == (
                    #[trigger] records@[b]).id ==> a == b,
            decreases n - i,
        {
            let mut j: usize = 0;
            while j < n
                invariant
                    n == records@.len(),
                    i < n,
                    j <= n,
                    forall|a: int, b: int|
                        0 <= a < i && 0 <= b < n && (#[trigger] records@[a]).id == (
                        #[trigger] records@[b]).id ==> a == b,
                    forall|b: int| 0 <= b < j && b != i ==> records@[b].id != records@[i as int].id,
                decreases n - j,
            {
                if j != i && records[j].id == records[i].id {
                    return Err(TodoError::Database(String::from_str("duplicate todo id")));
                }
                j += 1;
            }
            i += 1;
        }
        let mut k: usize = 0;
        while k < n
            invariant
                n == records@.len(),
                k <= n,
                unique_ids(records@),
                forall|a: int|
                    0 <= a < k ==> match (#[trigger] records@[a]).epic_id {
                        Some(e) => e != records@[a].id && has_id(records@, e),
                        None => true,
                    },
            decreases n - k,
        {
            if let Some(e) = records[k].epic_id {
                if e == records[k].id {
                    return Err(TodoError::Database(String::from_str("todo is its own epic")));
                }
                let mut found = false;
                let mut m: usize = 0;
                while m < n
                    invariant
                        n == records@.len(),
                        m <= n,
                        found ==> has_id(records@, e),
                        !found ==> forall|b: int| 0 <= b < m ==> (#[trigger] records@[b]).id != e,
                    decreases n - m,
                {
                    if records[m].id == e {
                        found = true;
                    }
                    m += 1;
                }
                if !found {
                    return Err(TodoError::Database(String::from_str("dangling epic link")));
                }
            }
            k += 1;
        }
        Ok(TodoService { todos: records })
    }

    /// All records, in insertion order.
    pub fn records(&self) -> (r: &Vec<Model>)
        ensures
            r@ == self@,
    {
        &self.todos
    }

    /// Position of the record with identifier `id`.
    fn find(&self, id: u128) -> (r: Option<usize>)
        requires
            self.wf(),
        ensures
            r matches Some(p) ==> p < self@.len() && p == pos_of(self@, id) && has_id(self@, id),
            r is None ==> !has_id(self@, id),
    {
        let mut i: usize = 0;
        while i < self.todos.len()
            invariant
                self.wf(),
                i <= self.todos@.len(),
                forall|j: int| 0 <= j < i ==> (#[trigger] self.todos@[j]).id != id,
            decreases self.todos.len() - i,
        {
            if self.todos[i].id == id {
                proof {
                    lemma_record_of(self@, i as int);
                }
                return Some(i);
            }
            i += 1;
        }
        None
    }

    /// The record with identifier `id`.
    pub fn get(&self, id: u128) -> (r: Result<Model, TodoError>)
        requires
            self.wf(),
        ensures
            has_id(self@, id) ==> r == Ok::<Model, TodoError>(record_of(self@, id)),
            !has_id(self@, id) ==> r == Err::<Model, TodoError>(TodoError::NotFound(id)),
    {
        match self.find(id) {
            Some(p) => Ok(self.todos[p].duplicate()),
            None => Err(TodoError::NotFound(id)),
        }
    }

    /// The project that a record linked to `epic_id` takes: an epic's own
    /// project unless one is given, and a given one only where it agrees.
    fn resolve_project_with_epic(&self, project: Option<String>, epic_id: Option<u128>) -> (r:
        Result<Option<String>, TodoError>)
        requires
            self.wf(),
        ensures
            r == resolved_project(self@, project, epic_id),
    {
        match epic_id {
            None => Ok(project),
            Some(e) => match self.find(e) {
                None => Err(TodoError::EpicNotFound(e)),
                Some(p) => {
                    let epic_project = copy_opt_string(&self.todos[p].project);
                    match project {
                        None => Ok(epic_project),
                        Some(given) => match epic_project {
                            Some(q) => {
                                if given != q {
                                    Err(TodoError::ProjectMismatch(given, q))
                                } else {
                                    Ok(Some(given))
                                }
                            },
                            None => Ok(Some(given)),
                        },
                    }
                },
            },
        }
    }

    /// Positions, in increasing order, of the records that `sel` accepts.
    fn collect(&self, sel: &Selector) -> (r: Vec<usize>)
        ensures
            forall|k: int| 0 <= k < r@.len() ==> #[trigger] r@[k] < self@.len() && accepts(*sel, self@[r@[k] as int]),
            forall|p: int| 0 <= p < self@.len() && accepts(*sel, #[trigger] self@[p]) ==> r@.contains(p as usize),
            forall|a: int, b: int| 0 <= a < b < r@.len() ==> #[trigger] r@[a] < #[trigger] r@[b],
            r@.len() <= self@.len(),
    {
        let mut r: Vec<usize> = Vec::new();
        let mut i: usize = 0;
        while i < self.todos.len()
            invariant
                i <= self@.len(),
                self@ == self.todos@,
                forall|k: int| 0 <= k < r@.len() ==> #[trigger] r@[k] < i && accepts(*sel, self@[r@[k] as int]),
                forall|p: int| 0 <= p < i && accepts(*sel, #[trigger] self@[p]) ==> r@.contains(p as usize),
                forall|a: int, b: int| 0 <= a < b < r@.len() ==> #[trigger] r@[a] < #[trigger] r@[b],
                r@.len() <= i,
            decreases self@.len() - i,
        {
            let ghost r0 = r@;
            if accepts_exec(sel, &self.todos[i]) {
                r.push(i);
                proof {
                    assert(r@[r0.len() as int] == i);
                    assert forall|p: int| 0 <= p < i && accepts(*sel, #[trigger] self@[p]) implies r@.contains(
                        p as usize,
                    ) by {
                        let k = choose|k: int| 0 <= k < r0.len() && r0[k] == p as usize;
                        assert(r@[k] == p as usize);
                    }
                }
            }
            i += 1;
        }
        r
    }

    /// The records at positions `ps`, in that order.
    fn copy_at(&self, ps: &Vec<usize>) -> (r: Vec<Model>)
        requires
            forall|k: int| 0 <= k < ps@.len() ==> #[trigger] ps@[k] < self@.len(),
        ensures
            r@ == at_positions(self@, ps@),
    {
        let mut r: Vec<Model> = Vec::new();
        let mut k: usize = 0;
        while k < ps.len()
            invariant
                k <= ps@.len(),
                self@ == self.todos@,
                forall|j: int| 0 <= j < ps@.len() ==> #[trigger] ps@[j] < self@.len(),
                r@.len() == k,
                forall|j: int| 0 <= j < k ==> #[trigger] r@[j] == self@[ps@[j] as int],
            decreases ps@.len() - k,
        {
            r.push(self.todos[ps[k]].duplicate());
            k += 1;
        }
        assert(r@ =~= at_positions(self@, ps@));
        r
    }

    /// The records that pass the filters of `opts`, pending before done, then
    /// by index, then in insertion order.
    pub fn list(&self, opts: &ListOptions) -> (r: Vec<Model>)
        ensures
            exists|ps: Seq<usize>|
                ordered_selection(self@, |m: Model| matches_filter(m, *opts), ps) && r@
                    == at_positions(self@, ps),
    {
        let sel = Selector::Filter(opts);
        let found = self.collect(&sel);
        let ps = sort_positions(&self.todos, &found);
        let r = self.copy_at(&ps);
        proof {
            let f = |m: Model| matches_filter(m, *opts);
            assert forall|k: int| 0 <= k < ps@.len() implies #[trigger] ps@[k] < self@.len() && f(
                self@[ps@[k] as int],
            ) by {
                assert(ps@.contains(ps@[k]));
                let j = choose|j: int| 0 <= j < found@.len() && found@[j] == ps@[k];
                assert(accepts(sel, self@[found@[j] as int]));
            }
            assert forall|p: int| 0 <= p < self@.len() && #[trigger] f(self@[p]) implies ps@.contains(
                p as usize,
            ) by {
                assert(accepts(sel, self@[p]));
            }
            assert(ordered_selection(self@, f, ps@));
        }
        r
    }

    /// Replaces the record at `p` by `m`, which keeps its identifier and has a
    /// resolving epic link.
    fn replace(&mut self, p: usize, m: Model)
        requires
            old(self).wf(),
            p < old(self)@.len(),
            m.id == old(self)@[p as int].id,
            match m.epic_id {
                Some(e) => e != m.id && has_id(old(self)@, e),
                None => true,
            },
        ensures
            final(self)@ == old(self)@.update(p as int, m),
            final(self).wf(),
    {
        let ghost s0 = self@;
        self.todos.set(p, m);
        proof {
            let s = self@;
            assert forall|e: u128| has_id(s0, e) <==> has_id(s, e) by {
                if has_id(s0, e) {
                    let j = choose|j: int| 0 <= j < s0.len() && s0[j].id == e;
                    assert(s[j].id == e);
                }
                if has_id(s, e) {
                    let j = choose|j: int| 0 <= j < s.len() && s[j].id == e;
                    assert(s0[j].id == e);
                }
            }
            assert forall|i: int, j: int|
                0 <= i < s.len() && 0 <= j < s.len() && (#[trigger] s[i]).id == (#[trigger] s[j]).id implies i
                == j by {
                assert(s0[i].id == s[i].id && s0[j].id == s[j].id);
            }
            assert forall|i: int| 0 <= i < s.len() implies match (#[trigger] s[i]).epic_id {
                Some(e) => e != s[i].id && has_id(s, e),
                None => true,
            } by {
                if i != p {
                    assert(s[i] == s0[i]);
                }
            }
        }
    }

    /// Deletes the record `id`. Refused while other records link to it as
    /// their epic; `NotFound` where there is no such record. `Ok(true)` on
    /// success.
    pub fn delete(&mut self, id: u128) -> (r: Result<bool, TodoError>)
        requires
            old(self).wf(),
        ensures
            final(self).wf(),
            child_count(old(self)@, id) > 0 ==> r == Err::<bool, TodoError>(
                TodoError::HasChildren(child_count(old(self)@, id) as u64),
            ) && final(self)@ == old(self)@,
            child_count(old(self)@, id) == 0 && has_id(old(self)@, id) ==> r == Ok::<bool, TodoError>(
                true,
            ) && final(self)@ == old(self)@.remove(pos_of(old(self)@, id)),
            child_count(old(self)@, id) == 0 && !has_id(old(self)@, id) ==> r == Err::<
                bool,
                TodoError,
            >(TodoError::NotFound(id)) && final(self)@ == old(self)@,
    {
        let mut n: usize = 0;
        let mut i: usize = 0;
        while i < self.todos.len()
            invariant
                i <= self@.len(),
                self@ == self.todos@,
                n <= i,
                n == child_count(self@.subrange(0, i as int), id),
            decreases self@.len() - i,
        {
            assert(self@.subrange(0, i + 1).drop_last() =~= self@.subrange(0, i as int));
            if self.todos[i].epic_id == Some(id) {
                n += 1;
            }
            i += 1;
        }
        assert(self@.subrange(0, self@.len() as int) =~= self@);
        if n > 0 {
            return Err(TodoError::HasChildren(n as u64));
        }
        match self.find(id) {
            None => Err(TodoError::NotFound(id)),
            Some(p) => {
                let ghost s0 = self@;
                proof {
                    lemma_no_children(s0, id);
                }
                self.todos.remove(p);
                proof {
                    let s = self@;
                    assert(s == s0.remove(p as int));
                    assert forall|i: int| 0 <= i < s.len() implies #[trigger] s[i] == s0[if i < p {
                        i
                    } else {
                        i + 1
                    }] by {}
                    assert forall|i: int, j: int|
                        0 <= i < s.len() && 0 <= j < s.len() && (#[trigger] s[i]).id == (
                        #[trigger] s[j]).id implies i == j by {
                        let i0 = if i < p { i } else { i + 1 };
                        let j0 = if j < p { j } else { j + 1 };
                        assert(s0[i0].id == s0[j0].id);
                    }
                    assert forall|i: int| 0 <= i < s.len() implies match (#[trigger] s[i]).epic_id {
                        Some(e) => e != s[i].id && has_id(s, e),
                        None => true,
                    } by {
                        let i0 = if i < p { i } else { i + 1 };
                        assert(s[i] == s0[i0]);
                        if let Some(e) = s[i].epic_id {
                            let j0 = choose|j: int| 0 <= j < s0.len() && s0[j].id == e;
                            assert(j0 != p) by {
                                assert(s0[i0].epic_id != Some(id));
                            }
                            let j = if j0 < p { j0 } else { j0 - 1 };
                            assert(s[j] == s0[j0]);
                        }
                    }
                }
                Ok(true)
            },
        }
    }

    /// Marks `id` done. A backlog record moves into `today`'s column; the record
    /// takes the bottom index among everything in its scope. A record already
    /// done is returned as it is.
    pub fn mark_done(&mut self, id: u128, today: CalendarDate) -> (r: Result<Model, TodoError>)
        requires
            old(self).wf(),
        ensures
            final(self).wf(),
            !has_id(old(self)@, id) ==> r == Err::<Model, TodoError>(TodoError::NotFound(id)),
            has_id(old(self)@, id) && record_of(old(self)@, id).is_done() ==> r == Ok::<
                Model,
                TodoError,
            >(record_of(old(self)@, id)),
            has_id(old(self)@, id) && !record_of(old(self)@, id).is_done() && !fits_i64(
                bottom_done_index(old(self)@, done_scope(record_of(old(self)@, id), today)),
            ) ==> r matches Err(TodoError::Database(_)),
            r is Err || (r matches Ok(m) && m == record_of(old(self)@, id)) ==> final(self)@ == old(
                self,
            )@,
            has_id(old(self)@, id) && !record_of(old(self)@, id).is_done() && fits_i64(
                bottom_done_index(old(self)@, done_scope(record_of(old(self)@, id), today)),
            ) ==> (r matches Ok(m) && final(self)@ == old(self)@.update(pos_of(old(self)@, id), m)
                && m == (Model {
                status: TodoStatus::Done,
                scheduled_for: done_scope(record_of(old(self)@, id), today),
                order_index: bottom_done_index(
                    old(self)@,
                    done_scope(record_of(old(self)@, id), today),
                ) as i64,
                updated_at: m.updated_at,
                ..record_of(old(self)@, id)
            })),
    {
        let p = match self.find(id) {
            Some(p) => p,
            None => return Err(TodoError::NotFound(id)),
        };
        let model = self.todos[p].duplicate();
        if model.status == TodoStatus::Done {
            return Ok(model);
        }
        let scheduled_for = match model.scheduled_for {
            Some(d) => Some(d),
            None => Some(today),
        };
        let order_index = match next_done_order_index(&self.todos, scheduled_for) {
            Some(i) => i,
            None => return Err(TodoError::Database(String::from_str("order index out of range"))),
        };
        let updated = Model {
            status: TodoStatus::Done,
            scheduled_for,
            order_index,
            updated_at: clock_millis(),
            ..model
        };
        self.replace(p, updated.duplicate());
        Ok(updated)
    }

    /// Marks `id` pending again, at the top of the pending records of its scope.
    /// A record already pending is returned as it is.
    pub fn mark_pending(&mut self, id: u128) -> (r: Result<Model, TodoError>)
        requires
            old(self).wf(),
        ensures
            final(self).wf(),
            !has_id(old(self)@, id) ==> r == Err::<Model, TodoError>(TodoError::NotFound(id)),
            has_id(old(self)@, id) && !record_of(old(self)@, id).is_done() ==> r == Ok::<
                Model,
                TodoError,
            >(record_of(old(self)@, id)),
            has_id(old(self)@, id) && record_of(old(self)@, id).is_done() && !fits_i64(
                top_index(old(self)@, record_of(old(self)@, id).scheduled_for),
            ) ==> r matches Err(TodoError::Database(_)),
            r is Err || (r matches Ok(m) && m == record_of(old(self)@, id)) ==> final(self)@ == old(
                self,
            )@,
            has_id(old(self)@, id) && record_of(old(self)@, id).is_done() && fits_i64(
                top_index(old(self)@, record_of(old(self)@, id).scheduled_for),
            ) ==> (r matches Ok(m) && final(self)@ == old(self)@.update(pos_of(old(self)@, id), m)
                && m == (Model {
                status: TodoStatus::Pending,
                order_index: top_index(
                    old(self)@,
                    record_of(old(self)@, id).scheduled_for,
                ) as i64,
                updated_at: m.updated_at,
                ..record_of(old(self)@, id)
            })),
    {
        let p = match self.find(id) {
            Some(p) => p,
            None => return Err(TodoError::NotFound(id)),
        };
        let model = self.todos[p].duplicate();
        if model.status == TodoStatus::Pending {
            return Ok(model);
        }
        let order_index = match next_top_order_index(&self.todos, model.scheduled_for) {
            Some(i) => i,
            None => return Err(TodoError::Database(String::from_str("order index out of range"))),
        };
        let updated = Model {
            status: TodoStatus::Pending,
            order_index,
            updated_at: clock_millis(),
            ..model
        };
        self.replace(p, updated.duplicate());
        Ok(updated)
    }

    /// Moves `id` into `scope`, at the top of its pending records or at the
    /// bottom of the partition of its status.
    pub fn move_to_scope(&mut self, id: u128, scope: ListScope, placement: MovePlacement) -> (r:
        Result<Model, TodoError>)
        requires
            old(self).wf(),
        ensures
            final(self).wf(),
            !has_id(old(self)@, id) ==> r == Err::<Model, TodoError>(TodoError::NotFound(id)),
            has_id(old(self)@, id) && !fits_i64(
                move_index(old(self)@, record_of(old(self)@, id), scope.spec_date(), placement),
            ) ==> r matches Err(TodoError::Database(_)),
            r is Err ==> final(self)@ == old(self)@,
            has_id(old(self)@, id) && fits_i64(
                move_index(old(self)@, record_of(old(self)@, id), scope.spec_date(), placement),
            ) ==> (r matches Ok(m) && final(self)@ == old(self)@.update(pos_of(old(self)@, id), m)
                && m == (Model {
                scheduled_for: scope.spec_date(),
                order_index: move_index(
                    old(self)@,
                    record_of(old(self)@, id),
                    scope.spec_date(),
                    placement,
                ) as i64,
                updated_at: m.updated_at,
                ..record_of(old(self)@, id)
            })),
    {
        let p = match self.find(id) {
            Some(p) => p,
            None => return Err(TodoError::NotFound(id)),
        };
        let model = self.todos[p].duplicate();
        let target = scope.date();
        let index = match placement {
            MovePlacement::Top => next_top_order_index(&self.todos, target),
            MovePlacement::Bottom => if model.status == TodoStatus::Done {
                next_done_order_index(&self.todos, target)
            } else {
                next_pending_bottom_index(&self.todos, target)
            },
        };
        let order_index = match index {
            Some(i) => i,
            None => return Err(TodoError::Database(String::from_str("order index out of range"))),
        };
        let updated = Model {
            scheduled_for: target,
            order_index,
            updated_at: clock_millis(),
            ..model
        };
        self.replace(p, updated.duplicate());
        Ok(updated)
    }

    /// Sets the backlog column of `id`.
    pub fn set_backlog_column(&mut self, id: u128, column: i64) -> (r: Result<Model, TodoError>)
        requires
            old(self).wf(),
        ensures
            final(self).wf(),
            !has_id(old(self)@, id) ==> r == Err::<Model, TodoError>(TodoError::NotFound(id))
                && final(self)@ == old(self)@,
            has_id(old(self)@, id) ==> (r matches Ok(m) && final(self)@ == old(self)@.update(
                pos_of(old(self)@, id),
                m,
            ) && m == (Model {
                backlog_column: column,
                updated_at: m.updated_at,
                ..record_of(old(self)@, id)
            })),
    {
        let p = match self.find(id) {
            Some(p) => p,
            None => return Err(TodoError::NotFound(id)),
        };
        let model = self.todos[p].duplicate();
        let updated = Model { backlog_column: column, updated_at: clock_millis(), ..model };
        self.replace(p, updated.duplicate());
        Ok(updated)
    }

    /// Sets the title of `id`.
    pub fn update_title(&mut self, id: u128, title: String) -> (r: Result<Model, TodoError>)
        requires
            old(self).wf(),
        ensures
            final(self).wf(),
            !has_id(old(self)@, id) ==> r == Err::<Model, TodoError>(TodoError::NotFound(id))
                && final(self)@ == old(self)@,
            has_id(old(self)@, id) ==> (r matches Ok(m) && final(self)@ == old(self)@.update(
                pos_of(old(self)@, id),
                m,
            ) && m == (Model { title, updated_at: m.updated_at, ..record_of(old(self)@, id) })),
    {
        let p = match self.find(id) {
            Some(p) => p,
            None => return Err(TodoError::NotFound(id)),
        };
        let model = self.todos[p].duplicate();
        let updated = Model { title, updated_at: clock_millis(), ..model };
        self.replace(p, updated.duplicate());
        Ok(updated)
    }

    /// Sets the day of `id`; `None` moves it to the backlog. Its index is kept.
    pub fn update_scheduled_for(&mut self, id: u128, scheduled_for: Option<CalendarDate>) -> (r:
        Result<Model, TodoError>)
        requires
            old(self).wf(),
        ensures
            final(self).wf(),
            !has_id(old(self)@, id) ==> r == Err::<Model, TodoError>(TodoError::NotFound(id))
                && final(self)@ == old(self)@,
            has_id(old(self)@, id) ==> (r matches Ok(m) && final(self)@ == old(self)@.update(
                pos_of(old(self)@, id),
                m,
            ) && m == (Model {
                scheduled_for,
                updated_at: m.updated_at,
                ..record_of(old(self)@, id)
            })),
    {
        let p = match self.find(id) {
            Some(p) => p,
            None => return Err(TodoError::NotFound(id)),
        };
        let model = self.todos[p].duplicate();
        let updated = Model { scheduled_for, updated_at: clock_millis(), ..model };
        self.replace(p, updated.duplicate());
        Ok(updated)
    }

    /// Sets the notes of `id`.
    pub fn update_notes(&mut self, id: u128, notes: Option<String>) -> (r: Result<
        Model,
        TodoError,
    >)
        requires
            old(self).wf(),
        ensures
            final(self).wf(),
            !has_id(old(self)@, id) ==> r == Err::<Model, TodoError>(TodoError::NotFound(id))
                && final(self)@ == old(self)@,
            has_id(old(self)@, id) ==> (r matches Ok(m) && final(self)@ == old(self)@.update(
                pos_of(old(self)@, id),
                m,
            ) && m == (Model { notes, updated_at: m.updated_at, ..record_of(old(self)@, id) })),
    {
        let p = match self.find(id) {
            Some(p) => p,
            None => return Err(TodoError::NotFound(id)),
        };
        let model = self.todos[p].duplicate();
        let updated = Model { notes, updated_at: clock_millis(), ..model };
        self.replace(p, updated.duplicate());
        Ok(updated)
    }

    /// Sets the project of `id`. Where `id` has an epic with a project, a given
    /// project must equal the epic's current one.
    pub fn update_project(&mut self, id: u128, project: Option<String>) -> (r: Result<
        Model,
        TodoError,
    >)
        requires
            old(self).wf(),
        ensures
            final(self).wf(),
            r is Err ==> final(self)@ == old(self)@,
            !has_id(old(self)@, id) ==> r == Err::<Model, TodoError>(TodoError::NotFound(id)),
            has_id(old(self)@, id) && project_conflict(old(self)@, id, project) ==> r == Err::<
                Model,
                TodoError,
            >(
                TodoError::ProjectMismatch(
                    project.unwrap(),
                    epic_of(old(self)@, id).project.unwrap(),
                ),
            ),
            has_id(old(self)@, id) && !project_conflict(old(self)@, id, project) ==> (r matches Ok(
                m,
            ) && final(self)@ == old(self)@.update(pos_of(old(self)@, id), m) && m == (Model {
                project,
                updated_at: m.updated_at,
                ..record_of(old(self)@, id)
            })),
    {
        let p = match self.find(id) {
            Some(p) => p,
            None => return Err(TodoError::NotFound(id)),
        };
        let model = self.todos[p].duplicate();
        proof {
            lemma_record_of(self@, p as int);
        }
        if let Some(epic_id) = model.epic_id {
            let q = match self.find(epic_id) {
                Some(q) => q,
                None => return Err(TodoError::NotFound(epic_id)),
            };
            match (&project, &self.todos[q].project) {
                (Some(given), Some(epic_project)) => {
                    if !given.eq(epic_project) {
                        return Err(
                            TodoError::ProjectMismatch(given.clone(), epic_project.clone()),
                        );
                    }
                },
                _ => {},
            }
        }
        let updated = Model { project, updated_at: clock_millis(), ..model };
        self.replace(p, updated.duplicate());
        Ok(updated)
    }

    /// Links `id` to the epic `epic_id`, or unlinks it, resolving its project
    /// against the new epic as `add` does.
    pub fn update_epic_id(&mut self, id: u128, epic_id: Option<u128>) -> (r: Result<
        Model,
        TodoError,
    >)
        requires
            old(self).wf(),
        ensures
            final(self).wf(),
            r is Err ==> final(self)@ == old(self)@,
            epic_id == Some(id) ==> r == Err::<Model, TodoError>(TodoError::SelfReference),
            epic_id != Some(id) && !has_id(old(self)@, id) ==> r == Err::<Model, TodoError>(
                TodoError::NotFound(id),
            ),
            epic_id != Some(id) && has_id(old(self)@, id) ==> match resolved_project(
                old(self)@,
                record_of(old(self)@, id).project,
                epic_id,
            ) {
                Err(e) => r == Err::<Model, TodoError>(e),
                Ok(resolved) => r matches Ok(m) && final(self)@ == old(self)@.update(
                    pos_of(old(self)@, id),
                    m,
                ) && m == (Model {
                    epic_id,
                    project: resolved,
                    updated_at: m.updated_at,
                    ..record_of(old(self)@, id)
                }),
            },
    {
        if epic_id == Some(id) {
            return Err(TodoError::SelfReference);
        }
        let p = match self.find(id) {
            Some(p) => p,
            None => return Err(TodoError::NotFound(id)),
        };
        let model = self.todos[p].duplicate();
        let resolved = match self.resolve_project_with_epic(copy_opt_string(&model.project), epic_id) {
            Ok(r) => r,
            Err(e) => return Err(e),
        };
        let updated = Model { epic_id, project: resolved, updated_at: clock_millis(), ..model };
        self.replace(p, updated.duplicate());
        Ok(updated)
    }

    /// The title of the record `epic_id`.
    pub fn get_epic_title(&self, epic_id: u128) -> (r: Result<String, TodoError>)
        requires
            self.wf(),
        ensures
            has_id(self@, epic_id) ==> r == Ok::<String, TodoError>(record_of(self@, epic_id).title),
            !has_id(self@, epic_id) ==> r == Err::<String, TodoError>(TodoError::NotFound(epic_id)),
    {
        match self.find(epic_id) {
            Some(p) => Ok(self.todos[p].title.clone()),
            None => Err(TodoError::NotFound(epic_id)),
        }
    }

    /// Titles of the records among `ids`, keyed by identifier, in one pass;
    /// identifiers of no record are left out.
    pub fn get_epic_titles(&self, ids: &Vec<u128>) -> (r: HashMap<u128, String>)
        requires
            self.wf(),
        ensures
            forall|e: u128| #[trigger] r@.contains_key(e) <==> ids@.contains(e) && has_id(self@, e),
            forall|e: u128| #[trigger] r@.contains_key(e) ==> r@[e] == record_of(self@, e).title,
    {
        broadcast use vstd::std_specs::hash::group_hash_axioms;

        let mut r: HashMap<u128, String> = HashMap::new();
        let mut i: usize = 0;
        while i < ids.len()
            invariant
                self.wf(),
                i <= ids@.len(),
                forall|e: u128| #[trigger] r@.contains_key(e) <==> ids@.subrange(0, i as int).contains(e)
                    && has_id(self@, e),
                forall|e: u128| #[trigger] r@.contains_key(e) ==> r@[e] == record_of(self@, e).title,
            decreases ids@.len() - i,
        {
            let e = ids[i];
            let ghost pre = ids@.subrange(0, i as int);
            assert(ids@.subrange(0, i + 1) == pre.push(e));
            if let Some(p) = self.find(e) {
                r.insert(e, self.todos[p].title.clone());
            }
            proof {
                let pre1 = ids@.subrange(0, i + 1);
                assert forall|x: u128| pre1.contains(x) <==> pre.contains(x) || x == e by {
                    if pre1.contains(x) {
                        let k = choose|k: int| 0 <= k < pre1.len() && pre1[k] == x;
                        if k < pre.len() {
                            assert(pre[k] == x);
                        }
                    }
                    if pre.contains(x) {
                        let k = choose|k: int| 0 <= k < pre.len() && pre[k] == x;
                        assert(pre1[k] == x);
                    }
                    if x == e {
                        assert(pre1[i as int] == x);
                    }
                }
            }
            i += 1;
        }
        assert(ids@.subrange(0, ids@.len() as int) == ids@);
        r
    }

    /// Moves `id` one step up or down among the records of its scope and
    /// status, then rewrites their indices to their positions 0, 1, ... A step
    /// past either end changes nothing.
    pub fn reorder(&mut self, id: u128, direction: ReorderDirection) -> (r: Result<(), TodoError>)
        requires
            old(self).wf(),
        ensures
            final(self).wf(),
            !has_id(old(self)@, id) ==> r == Err::<(), TodoError>(TodoError::NotFound(id))
                && final(self)@ == old(self)@,
            has_id(old(self)@, id) ==> r == Ok::<(), TodoError>(()) && exists|ps: Seq<usize>, k: int|
                ordered_selection(
                    old(self)@,
                    |m: Model| same_partition(m, record_of(old(self)@, id)),
                    ps,
                ) && 0 <= k < ps.len() && ps[k] == pos_of(old(self)@, id) && match swap_partner(
                    k,
                    ps.len() as int,
                    direction,
                ) {
                    None => final(self)@ == old(self)@,
                    Some(j) => reindexed(old(self)@, final(self)@, swapped(ps, k, j)),
                },
    {
        let p = match self.find(id) {
            Some(p) => p,
            None => return Err(TodoError::NotFound(id)),
        };
        let ghost s0 = self@;
        let ghost target = self@[p as int];
        let sel = Selector::Partition(self.todos[p].scheduled_for, self.todos[p].status);
        let found = self.collect(&sel);
        let mut ps = sort_positions(&self.todos, &found);
        let ghost ps0 = ps@;
        proof {
            lemma_record_of(s0, p as int);
            let f = |m: Model| same_partition(m, target);
            assert forall|k: int| 0 <= k < ps0.len() implies #[trigger] ps0[k] < s0.len() && f(
                s0[ps0[k] as int],
            ) by {
                assert(ps0.contains(ps0[k]));
                let j = choose|j: int| 0 <= j < found@.len() && found@[j] == ps0[k];
                assert(accepts(sel, s0[found@[j] as int]));
            }
            assert forall|q: int| 0 <= q < s0.len() && #[trigger] f(s0[q]) implies ps0.contains(
                q as usize,
            ) by {
                assert(accepts(sel, s0[q]));
            }
            assert(ordered_selection(s0, f, ps0));
            assert(accepts(sel, s0[p as int]));
            assert(found@.contains(p));
        }
        let mut k: usize = 0;
        while k < ps.len() && ps[k] != p
            invariant
                k <= ps@.len(),
                ps@ == ps0,
                ps0.contains(p),
                forall|i: int| 0 <= i < k ==> ps0[i] != p,
            decreases ps@.len() - k,
        {
            k += 1;
        }
        let n = ps.len();
        let partner: Option<usize> = match direction {
            ReorderDirection::Up => if k > 0 {
                Some(k - 1)
            } else {
                None
            },
            ReorderDirection::Down => if k + 1 < n {
                Some(k + 1)
            } else {
                None
            },
        };
        let j = match partner {
            None => return Ok(()),
            Some(j) => j,
        };
        let a = ps[k];
        let b = ps[j];
        ps.set(k, b);
        ps.set(j, a);
        let ghost qs = ps@;
        proof {
            assert(qs == swapped(ps0, k as int, j as int));
            assert(k != j);
            assert forall|x: int, y: int| 0 <= x < y < ps0.len() implies #[trigger] ps0[x] != #[trigger] ps0[y] by {
                assert(crate::display_order::key_lt(s0, ps0[x] as int, ps0[y] as int));
            }
            assert forall|x: int, y: int| 0 <= x < y < qs.len() implies #[trigger] qs[x] != #[trigger] qs[y] by {
                let x0 = if x == k { j as int } else if x == j { k as int } else { x };
                let y0 = if y == k { j as int } else if y == j { k as int } else { y };
                assert(qs[x] == ps0[x0]);
                assert(qs[y] == ps0[y0]);
                assert(x0 != y0);
                if x0 < y0 {
                    assert(ps0[x0] != ps0[y0]);
                } else {
                    assert(ps0[y0] != ps0[x0]);
                }
            }
        }
        let mut t: usize = 0;
        while t < n
            invariant
                t <= n,
                n == qs.len(),
                ps@ == qs,
                qs == swapped(ps0, k as int, j as int),
                k < n && j < n,
                k != j,
                ps0.len() == n,
                forall|x: int, y: int| 0 <= x < y < qs.len() ==> #[trigger] qs[x] != #[trigger] qs[y],
                forall|i: int| 0 <= i < ps0.len() ==> #[trigger] ps0[i] < s0.len(),
                self.wf(),
                self@.len() == s0.len(),
                forall|i: int|
                    0 <= i < t ==> #[trigger] self@[qs[i] as int] == (Model {
                        order_index: i as i64,
                        updated_at: self@[qs[i] as int].updated_at,
                        ..s0[qs[i] as int]
                    }),
                forall|q: int|
                    0 <= q < s0.len() && !qs.subrange(0, t as int).contains(q as usize)
                        ==> #[trigger] self@[q] == s0[q],
            decreases n - t,
        {
            let q = ps[t];
            proof {
                let x0 = if t == k { j as int } else if t == j { k as int } else { t as int };
                assert(qs[t as int] == ps0[x0]);
                assert(!qs.subrange(0, t as int).contains(q)) by {
                    if qs.subrange(0, t as int).contains(q) {
                        let i = choose|i: int| 0 <= i < t && qs.subrange(0, t as int)[i] == q;
                        assert(qs[i] == qs[t as int]);
                    }
                }
            }
            let current = self.todos[q].duplicate();
            let updated = Model { order_index: t as i64, updated_at: clock_millis(), ..current };
            self.replace(q, updated);
            proof {
                let pre = qs.subrange(0, t as int);
                let pre1 = qs.subrange(0, t + 1);
                assert(pre1 == pre.push(q));
                assert forall|i: int| 0 <= i < t implies #[trigger] qs[i] != q by {
                    assert(qs[i] != qs[t as int]);
                }
                assert forall|q2: int|
                    0 <= q2 < s0.len() && !pre1.contains(q2 as usize) implies #[trigger] self@[q2]
                    == s0[q2] by {
                    if pre.contains(q2 as usize) {
                        let i = choose|i: int| 0 <= i < pre.len() && pre[i] == q2 as usize;
                        assert(pre1[i] == q2 as usize);
                    }
                    assert(pre1[t as int] == q);
                }
            }
            t += 1;
        }
        proof {
            assert(qs.subrange(0, n as int) == qs);
            assert(swap_partner(k as int, n as int, direction) == Some(j as int));
        }
        Ok(())
    }

    /// Moves every pending record scheduled before `today` into `today`'s
    /// column, below its pending records, keeping their relative order; returns
    /// how many moved. Idempotent for a given `today`.
    pub fn rollover_to(&mut self, today: CalendarDate) -> (r: Result<usize, TodoError>)
        requires
            old(self).wf(),
        ensures
            final(self).wf(),
            r is Err ==> final(self)@ == old(self)@,
            exists|ps: Seq<usize>|
                {
                    &&& overdue_order(old(self)@, today, ps)
                    &&& ps.len() == 0 ==> r == Ok::<usize, TodoError>(0) && final(self)@ == old(
                        self,
                    )@
                    &&& ps.len() > 0 && !fits_i64(
                        bottom_pending_index(old(self)@, Some(today)) + ps.len(),
                    ) ==> (r matches Err(TodoError::Database(_)))
                    &&& ps.len() > 0 && fits_i64(
                        bottom_pending_index(old(self)@, Some(today)) + ps.len(),
                    ) ==> r == Ok::<usize, TodoError>(ps.len() as usize) && rolled_over(
                        old(self)@,
                        final(self)@,
                        ps,
                        today,
                        bottom_pending_index(old(self)@, Some(today)),
                    )
                },
    {
        let ghost s0 = self@;
        let sel = Selector::Overdue(today);
        let found = self.collect(&sel);
        let ps = sort_positions(&self.todos, &found);
        let ghost ps0 = ps@;
        proof {
            let f = |m: Model| is_overdue(m, today);
            assert forall|k: int| 0 <= k < ps0.len() implies #[trigger] ps0[k] < s0.len() && f(
                s0[ps0[k] as int],
            ) by {
                assert(ps0.contains(ps0[k]));
                let j = choose|j: int| 0 <= j < found@.len() && found@[j] == ps0[k];
                assert(accepts(sel, s0[found@[j] as int]));
            }
            assert forall|q: int| 0 <= q < s0.len() && #[trigger] f(s0[q]) implies ps0.contains(
                q as usize,
            ) by {
                assert(accepts(sel, s0[q]));
            }
            assert(ordered_selection(s0, f, ps0));
            assert(overdue_order(s0, today, ps0));
            assert forall|x: int, y: int| 0 <= x < y < ps0.len() implies #[trigger] ps0[x] != #[trigger] ps0[y] by {
                assert(crate::display_order::key_lt(s0, ps0[x] as int, ps0[y] as int));
            }
        }
        let n = ps.len();
        if n == 0 {
            return Ok(0);
        }
        let base = match next_pending_bottom_index(&self.todos, Some(today)) {
            Some(b) => b,
            None => return Err(TodoError::Database(String::from_str("order index out of range"))),
        };
        if (base as i128) + (n as i128) > (i64::MAX as i128) {
            return Err(TodoError::Database(String::from_str("order index out of range")));
        }
        let mut next_index: i64 = base;
        let mut t: usize = 0;
        while t < n
            invariant
                t <= n,
                n == ps0.len(),
                ps@ == ps0,
                next_index == base + t,
                base + n <= i64::MAX,
                base == bottom_pending_index(s0, Some(today)),
                forall|x: int, y: int| 0 <= x < y < ps0.len() ==> #[trigger] ps0[x] != #[trigger] ps0[y],
                forall|i: int| 0 <= i < ps0.len() ==> #[trigger] ps0[i] < s0.len(),
                self.wf(),
                self@.len() == s0.len(),
                forall|i: int|
                    0 <= i < t ==> #[trigger] self@[ps0[i] as int] == (Model {
                        scheduled_for: Some(today),
                        order_index: (base + 1 + i) as i64,
                        updated_at: self@[ps0[i] as int].updated_at,
                        ..s0[ps0[i] as int]
                    }),
                forall|q: int|
                    0 <= q < s0.len() && !ps0.subrange(0, t as int).contains(q as usize)
                        ==> #[trigger] self@[q] == s0[q],
            decreases n - t,
        {
            let q = ps[t];
            proof {
                assert(!ps0.subrange(0, t as int).contains(q)) by {
                    if ps0.subrange(0, t as int).contains(q) {
                        let i = choose|i: int| 0 <= i < t && ps0.subrange(0, t as int)[i] == q;
                        assert(ps0[i] == ps0[t as int]);
                    }
                }
            }
            next_index = next_index + 1;
            let current = self.todos[q].duplicate();
            let updated = Model {
                scheduled_for: Some(today),
                order_index: next_index,
                updated_at: clock_millis(),
                ..current
            };
            self.replace(q, updated);
            proof {
                let pre = ps0.subrange(0, t as int);
                let pre1 = ps0.subrange(0, t + 1);
                assert(pre1 == pre.push(q));
                assert forall|i: int| 0 <= i < t implies #[trigger] ps0[i] != q by {
                    assert(ps0[i] != ps0[t as int]);
                }
                assert forall|q2: int|
                    0 <= q2 < s0.len() && !pre1.contains(q2 as usize) implies #[trigger] self@[q2]
                    == s0[q2] by {
                    if pre.contains(q2 as usize) {
                        let i = choose|i: int| 0 <= i < pre.len() && pre[i] == q2 as usize;
                        assert(pre1[i] == q2 as usize);
                    }
                    assert(pre1[t as int] == q);
                }
            }
            t += 1;
        }
        proof {
            assert(ps0.subrange(0, n as int) == ps0);
        }
        Ok(n)
    }

    /// Adds a pending record with identifier `id` at the top of its column.
    ///
    /// Fails, changing nothing, where the epic link does not resolve, where the
    /// top index leaves the range of `i64`, or where `id` is taken.
    pub fn add_with_id(
        &mut self,
        id: u128,
        title: String,
        scheduled_for: Option<CalendarDate>,
        notes: Option<String>,
        project: Option<String>,
        epic_id: Option<u128>,
    ) -> (r: Result<Model, TodoError>)
        requires
            old(self).wf(),
        ensures
            final(self).wf(),
            resolved_project(old(self)@, project, epic_id) matches Err(e) ==> r == Err::<
                Model,
                TodoError,
            >(e),
            resolved_project(old(self)@, project, epic_id) is Ok && (!fits_i64(
                top_index(old(self)@, scheduled_for),
            ) || has_id(old(self)@, id)) ==> r matches Err(TodoError::Database(_)),
            r is Err ==> final(self)@ == old(self)@,
            resolved_project(old(self)@, project, epic_id) is Ok && fits_i64(
                top_index(old(self)@, scheduled_for),
            ) && !has_id(old(self)@, id) ==> (r matches Ok(m) && final(self)@ == old(self)@.push(m)
                && m == (Model {
                id,
                title,
                status: TodoStatus::Pending,
                scheduled_for,
                order_index: top_index(old(self)@, scheduled_for) as i64,
                notes,
                project: resolved_project(old(self)@, project, epic_id).unwrap(),
                epic_id,
                backlog_column: 0,
                created_at: m.created_at,
                updated_at: m.created_at,
            })),
    {
        let resolved = match self.resolve_project_with_epic(project, epic_id) {
            Ok(p) => p,
            Err(e) => return Err(e),
        };
        let order_index = match next_top_order_index(&self.todos, scheduled_for) {
            Some(i) => i,
            None => return Err(TodoError::Database(String::from_str("order index out of range"))),
        };
        if self.find(id).is_some() {
            return Err(TodoError::Database(String::from_str("duplicate todo id")));
        }
        let now = clock_millis();
        let model = Model {
            id,
            title,
            status: TodoStatus::Pending,
            scheduled_for,
            order_index,
            notes,
            project: resolved,
            epic_id,
            backlog_column: 0,
            created_at: now,
            updated_at: now,
        };
        let ghost s0 = self@;
        self.todos.push(model.duplicate());
        proof {
            let s = self@;
            assert(s == s0.push(model));
            assert forall|e: u128| has_id(s0, e) implies has_id(s, e) by {
                let j = choose|j: int| 0 <= j < s0.len() && s0[j].id == e;
                assert(s[j].id == e);
            }
            assert forall|i: int, j: int|
                0 <= i < s.len() && 0 <= j < s.len() && (#[trigger] s[i]).id == (#[trigger] s[j]).id implies i
                == j by {
                if i < s0.len() && j == s0.len() {
                    assert(has_id(s0, id));
                }
                if j < s0.len() && i == s0.len() {
                    assert(has_id(s0, id));
                }
            }
            assert forall|i: int| 0 <= i < s.len() implies match (#[trigger] s[i]).epic_id {
                Some(e) => e != s[i].id && has_id(s, e),
                None => true,
            } by {
                if i < s0.len() {
                    assert(s[i] == s0[i]);
                }
            }
        }
        Ok(model)
    }

    /// Adds a pending record under a fresh random identifier, at the top of its
    /// column; see `add_with_id`.
    pub fn add(
        &mut self,
        title: String,
        scheduled_for: Option<CalendarDate>,
        notes: Option<String>,
        project: Option<String>,
        epic_id: Option<u128>,
    ) -> (r: Result<Model, TodoError>)
        requires
            old(self).wf(),
        ensures
            final(self).wf(),
            resolved_project(old(self)@, project, epic_id) matches Err(e) ==> r == Err::<
                Model,
                TodoError,
            >(e),
            resolved_project(old(self)@, project, epic_id) is Ok && !fits_i64(
                top_index(old(self)@, scheduled_for),
            ) ==> r matches Err(TodoError::Database(_)),
            resolved_project(old(self)@, project, epic_id) is Ok && fits_i64(
                top_index(old(self)@, scheduled_for),
            ) && r is Err ==> r matches Err(TodoError::Database(_)),
            old(self)@.len() == 0 && epic_id is None ==> r is Ok,
            r is Err ==> final(self)@ == old(self)@,
            r matches Ok(m) ==> resolved_project(old(self)@, project, epic_id) is Ok && fits_i64(
                top_index(old(self)@, scheduled_for),
            ) && !has_id(old(self)@, m.id) && final(self)@ == old(self)@.push(m)
                && m == (Model {
                id: m.id,
                title,
                status: TodoStatus::Pending,
                scheduled_for,
                order_index: top_index(old(self)@, scheduled_for) as i64,
                notes,
                project: resolved_project(old(self)@, project, epic_id).unwrap(),
                epic_id,
                backlog_column: 0,
                created_at: m.created_at,
                updated_at: m.created_at,
            }),
    {
        let id = fresh_id();
        proof {
            if old(self)@.len() == 0 {
                assert(min_index(old(self)@, scheduled_for, true) is None);
                assert(!has_id(old(self)@, id));
            }
        }
        self.add_with_id(id, title, scheduled_for, notes, project, epic_id)
    }
}

} // verus!
