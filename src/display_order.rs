//! Display order of a column: pending before done, then `order_index`
//! ascending, then insertion order.
use vstd::prelude::*;
use crate::entity::{Model, TodoStatus};

verus! {

pub open spec fn status_rank(r: Model) -> int {
    if r.is_done() {
        1
    } else {
        0
    }
}

/// The record at position `p` of `s` is shown before the one at `q`.
pub open spec fn key_lt(s: Seq<Model>, p: int, q: int) -> bool {
    status_rank(s[p]) < status_rank(s[q]) || (status_rank(s[p]) == status_rank(s[q]) && (
    s[p].order_index < s[q].order_index || (s[p].order_index == s[q].order_index && p < q)))
}

pub open spec fn sorted_by_key(s: Seq<Model>, ps: Seq<usize>) -> bool {
    forall|a: int, b: int|
        0 <= a < b < ps.len() ==> key_lt(s, #[trigger] ps[a] as int, #[trigger] ps[b] as int)
}

/// `ps` holds positions of `s`, each of a record that `sel` accepts, and every
/// such position.
pub open spec fn selects(s: Seq<Model>, sel: spec_fn(Model) -> bool, ps: Seq<usize>) -> bool {
    &&& forall|k: int| 0 <= k < ps.len() ==> #[trigger] ps[k] < s.len() && sel(s[ps[k] as int])
    &&& forall|p: int| 0 <= p < s.len() && #[trigger] sel(s[p]) ==> ps.contains(p as usize)
}

/// `ps` lists, in display order, the positions of the records that `sel` accepts.
pub open spec fn ordered_selection(s: Seq<Model>, sel: spec_fn(Model) -> bool, ps: Seq<usize>) -> bool {
    selects(s, sel, ps) && sorted_by_key(s, ps)
}

/// The records at the positions `ps`, in that order.
pub open spec fn at_positions(s: Seq<Model>, ps: Seq<usize>) -> Seq<Model> {
    ps.map_values(|p: usize| s[p as int])
}

fn key_before(todos: &Vec<Model>, p: usize, q: usize) -> (r: bool)
    requires
        p < todos@.len(),
        q < todos@.len(),
    ensures
        r == key_lt(todos@, p as int, q as int),
{
    let a = &todos[p];
    let b = &todos[q];
    let ra: u8 = if a.status == TodoStatus::Done { 1 } else { 0 };
    let rb: u8 = if b.status == TodoStatus::Done { 1 } else { 0 };
    ra < rb || (ra == rb && (a.order_index < b.order_index || (a.order_index == b.order_index && p
        < q)))
}

/// Sorts the positions `ps`, given in increasing order, into display order.
pub fn sort_positions(todos: &Vec<Model>, ps: &Vec<usize>) -> (r: Vec<usize>)
    requires
        forall|k: int| 0 <= k < ps@.len() ==> #[trigger] ps@[k] < todos@.len(),
        forall|a: int, b: int| 0 <= a < b < ps@.len() ==> #[trigger] ps@[a] < #[trigger] ps@[b],
    ensures
        sorted_by_key(todos@, r@),
        forall|k: int| 0 <= k < r@.len() ==> #[trigger] r@[k] < todos@.len(),
        forall|p: usize| r@.contains(p) <==> ps@.contains(p),
        r@.len() == ps@.len(),
{
    let mut r: Vec<usize> = Vec::new();
    let mut i: usize = 0;
    while i < ps.len()
        invariant
            i <= ps@.len(),
            r@.len() == i,
            forall|k: int| 0 <= k < ps@.len() ==> #[trigger] ps@[k] < todos@.len(),
            forall|a: int, b: int| 0 <= a < b < ps@.len() ==> #[trigger] ps@[a] < #[trigger] ps@[b],
            sorted_by_key(todos@, r@),
            forall|k: int| 0 <= k < r@.len() ==> #[trigger] r@[k] < todos@.len(),
            forall|p: usize| r@.contains(p) <==> ps@.subrange(0, i as int).contains(p),
            i < ps@.len() ==> forall|k: int| 0 <= k < r@.len() ==> #[trigger] r@[k] < ps@[i as int],
        decreases ps@.len() - i,
    {
        let x = ps[i];
        let mut j: usize = 0;
        while j < r.len() && key_before(todos, r[j], x)
            invariant
                j <= r@.len(),
                x < todos@.len(),
                forall|k: int| 0 <= k < r@.len() ==> #[trigger] r@[k] < todos@.len(),
                forall|k: int| 0 <= k < j ==> key_lt(todos@, #[trigger] r@[k] as int, x as int),
            decreases r@.len() - j,
        {
            j += 1;
        }
        let ghost r0 = r@;
        r.insert(j, x);
        proof {
            let r1 = r@;
            assert(r1 == r0.insert(j as int, x));
            assert forall|k: int| j <= k < r0.len() implies key_lt(todos@, x as int, #[trigger] r0[k] as int) by {
                assert(r0[k] < x);
                if k > j {
                    assert(key_lt(todos@, r0[j as int] as int, r0[k] as int));
                }
            }
            assert forall|a: int, b: int| 0 <= a < b < r1.len() implies key_lt(
                todos@,
                #[trigger] r1[a] as int,
                #[trigger] r1[b] as int,
            ) by {
                if b < j {
                    assert(r1[a] == r0[a] && r1[b] == r0[b]);
                } else if b == j {
                    assert(r1[a] == r0[a]);
                } else if a < j {
                    assert(r1[a] == r0[a] && r1[b] == r0[b - 1]);
                    assert(key_lt(todos@, r0[a] as int, x as int));
                } else if a == j {
                    assert(r1[b] == r0[b - 1]);
                } else {
                    assert(r1[a] == r0[a - 1] && r1[b] == r0[b - 1]);
                }
            }
            let pre = ps@.subrange(0, i as int);
            let pre1 = ps@.subrange(0, i + 1);
            assert(pre1 == pre.push(x));
            assert forall|p: usize| r1.contains(p) <==> pre1.contains(p) by {
                if r1.contains(p) {
                    let k = choose|k: int| 0 <= k < r1.len() && r1[k] == p;
                    if k < j {
                        assert(r0[k] == p);
                        assert(r0.contains(p));
                    } else if k > j {
                        assert(r0[k - 1] == p);
                        assert(r0.contains(p));
                    }
                    if p != x {
                        assert(pre.contains(p));
                        let m = choose|m: int| 0 <= m < pre.len() && pre[m] == p;
                        assert(pre1[m] == p);
                    } else {
                        assert(pre1[i as int] == p);
                    }
                }
                if pre1.contains(p) {
                    let m = choose|m: int| 0 <= m < pre1.len() && pre1[m] == p;
                    if m < i {
                        assert(pre[m] == p);
                        assert(r0.contains(p));
                        let k = choose|k: int| 0 <= k < r0.len() && r0[k] == p;
                        if k < j {
                            assert(r1[k] == p);
                        } else {
                            assert(r1[k + 1] == p);
                        }
                    } else {
                        assert(r1[j as int] == p);
                    }
                }
            }
            if i + 1 < ps@.len() {
                assert forall|k: int| 0 <= k < r1.len() implies #[trigger] r1[k] < ps@[i + 1] by {
                    assert(ps@[i as int] < ps@[i + 1]);
                    if k < j {
                        assert(r1[k] == r0[k]);
                    } else if k > j {
                        assert(r1[k] == r0[k - 1]);
                    }
                }
            }
        }
        i += 1;
    }
    assert(ps@.subrange(0, ps@.len() as int) == ps@);
    r
}

} // verus!
