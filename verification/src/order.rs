//! Ordering by time: the positions of a sequence of instants arranged from
//! the newest to the oldest or the other way round, with equal instants kept
//! in the order they stand in.
//!
//! The order is a sequence of positions rather than of values, so that it
//! says where each item went even when two items are alike.

use vstd::prelude::*;
use crate::clock::Timestamp;

verus! {

/// Instant `x` goes strictly ahead of instant `y`: it is the later one when
/// the newest come first, the earlier one otherwise.
pub open spec fn leads(x: Timestamp, y: Timestamp, newest_first: bool) -> bool {
    if newest_first {
        y.before(x)
    } else {
        x.before(y)
    }
}

/// Position `i` goes ahead of position `j`: its instant leads, or the two
/// instants are equal and `i` stands first.
pub open spec fn comes_before(keys: Seq<Timestamp>, newest_first: bool, i: int, j: int) -> bool {
    leads(keys[i], keys[j], newest_first) || (keys[i] == keys[j] && i < j)
}

/// `order` arranges the positions of `keys`: it names positions of `keys`
/// only, as many as there are, and each goes ahead of all that follow it.
/// Then no position occurs twice, so every position occurs once.
pub open spec fn is_ordering(order: Seq<usize>, keys: Seq<Timestamp>, newest_first: bool) -> bool {
    &&& order.len() == keys.len()
    &&& forall|a: int| 0 <= a < order.len() ==> 0 <= #[trigger] order[a] < keys.len()
    &&& forall|a: int, b: int|
        0 <= a < b < order.len() ==> comes_before(
            keys,
            newest_first,
            #[trigger] order[a] as int,
            #[trigger] order[b] as int,
        )
}

/// Where position `k` is put into `order`: behind the last position that it
/// does not lead.
pub open spec fn insertion_point(
    keys: Seq<Timestamp>,
    newest_first: bool,
    order: Seq<usize>,
    k: int,
) -> int
    decreases order.len(),
{
    if order.len() > 0 && leads(keys[k], keys[order.last() as int], newest_first) {
        insertion_point(keys, newest_first, order.drop_last(), k)
    } else {
        order.len() as int
    }
}

/// The arrangement of the positions of `keys`.
pub open spec fn ordering(keys: Seq<Timestamp>, newest_first: bool) -> Seq<usize>
    decreases keys.len(),
{
    if keys.len() == 0 {
        Seq::empty()
    } else {
        let k = keys.len() - 1;
        let earlier = ordering(keys.drop_last(), newest_first);
        earlier.insert(insertion_point(keys, newest_first, earlier, k), k as usize)
    }
}

proof fn lemma_insertion_point(keys: Seq<Timestamp>, newest_first: bool, order: Seq<usize>, k: int)
    ensures
        0 <= insertion_point(keys, newest_first, order, k) <= order.len(),
        forall|a: int|
            insertion_point(keys, newest_first, order, k) <= a < order.len() ==> leads(
                keys[k],
                keys[#[trigger] order[a] as int],
                newest_first,
            ),
        insertion_point(keys, newest_first, order, k) > 0 ==> !leads(
            keys[k],
            keys[order[insertion_point(keys, newest_first, order, k) - 1] as int],
            newest_first,
        ),
    decreases order.len(),
{
    if order.len() > 0 && leads(keys[k], keys[order.last() as int], newest_first) {
        let front = order.drop_last();
        lemma_insertion_point(keys, newest_first, front, k);
        let p = insertion_point(keys, newest_first, order, k);
        assert forall|a: int| p <= a < order.len() implies leads(
            keys[k],
            keys[#[trigger] order[a] as int],
            newest_first,
        ) by {
            if a < front.len() {
                assert(order[a] == front[a]);
            }
        }
        if p > 0 {
            assert(order[p - 1] == front[p - 1]);
        }
    }
}

/// The arrangement is an ordering: it holds every position once, the
/// instants run in the direction asked for, and equal instants stay in the
/// order they stood in.
pub proof fn lemma_ordering_is_ordering(keys: Seq<Timestamp>, newest_first: bool)
    requires
        keys.len() <= usize::MAX,
    ensures
        is_ordering(ordering(keys, newest_first), keys, newest_first),
    decreases keys.len(),
{
    if keys.len() > 0 {
        let k = keys.len() - 1;
        let head = keys.drop_last();
        let earlier = ordering(head, newest_first);
        lemma_ordering_is_ordering(head, newest_first);
        lemma_insertion_point(keys, newest_first, earlier, k);
        let p = insertion_point(keys, newest_first, earlier, k);
        let order = ordering(keys, newest_first);
        assert(order == earlier.insert(p, k as usize));
        assert forall|a: int| 0 <= a < order.len() implies 0 <= #[trigger] order[a] < keys.len() by {
            if a < p {
                assert(order[a] == earlier[a]);
            } else if a > p {
                assert(order[a] == earlier[a - 1]);
            }
        }
        assert forall|a: int, b: int| 0 <= a < b < order.len() implies comes_before(
            keys,
            newest_first,
            #[trigger] order[a] as int,
            #[trigger] order[b] as int,
        ) by {
            if b < p {
                assert(order[a] == earlier[a] && order[b] == earlier[b]);
                assert(comes_before(head, newest_first, earlier[a] as int, earlier[b] as int));
            } else if a > p {
                assert(order[a] == earlier[a - 1] && order[b] == earlier[b - 1]);
                assert(comes_before(
                    head,
                    newest_first,
                    earlier[a - 1] as int,
                    earlier[b - 1] as int,
                ));
            } else if a == p {
                assert(order[b] == earlier[b - 1]);
            } else if b == p {
                assert(order[a] == earlier[a]);
                if a < p - 1 {
                    assert(comes_before(head, newest_first, earlier[a] as int, earlier[p - 1] as int));
                }
            } else {
                assert(order[a] == earlier[a] && order[b] == earlier[b - 1]);
                assert(comes_before(head, newest_first, earlier[a] as int, earlier[b - 1] as int));
            }
        }
    }
}

/// The values of `s` lie below `m` and no two are the same.
spec fn distinct_below(s: Seq<usize>, m: int) -> bool {
    &&& forall|a: int| 0 <= a < s.len() ==> #[trigger] s[a] < m
    &&& forall|a: int, b: int| 0 <= a < b < s.len() ==> #[trigger] s[a] != #[trigger] s[b]
}

/// There are no more than `m` different values below `m`.
proof fn lemma_distinct_fit(s: Seq<usize>, m: nat)
    requires
        distinct_below(s, m as int),
    ensures
        s.len() <= m,
    decreases m,
{
    if s.len() > 0 {
        if m == 0 {
            assert(s[0] < 0);
        } else if exists|p: int| 0 <= p < s.len() && s[p] == m - 1 {
            let p = choose|p: int| 0 <= p < s.len() && s[p] == m - 1;
            let r = s.remove(p);
            assert forall|a: int| 0 <= a < r.len() implies #[trigger] r[a] < m - 1 by {
                if a < p {
                    assert(r[a] == s[a]);
                    assert(s[a] != s[p]);
                } else {
                    assert(r[a] == s[a + 1]);
                    assert(s[p] != s[a + 1]);
                }
            }
            assert forall|a: int, b: int| 0 <= a < b < r.len() implies #[trigger] r[a]
                != #[trigger] r[b] by {
                let sa = if a < p { a } else { a + 1 };
                let sb = if b < p { b } else { b + 1 };
                assert(r[a] == s[sa] && r[b] == s[sb]);
                assert(s[sa] != s[sb]);
            }
            lemma_distinct_fit(r, (m - 1) as nat);
        } else {
            assert forall|a: int| 0 <= a < s.len() implies #[trigger] s[a] < m - 1 by {
                assert(s[a] < m);
            }
            lemma_distinct_fit(s, (m - 1) as nat);
        }
    }
}

/// Among `m` different values below `m`, each value below `m` occurs.
proof fn lemma_all_present(s: Seq<usize>, m: nat, v: int)
    requires
        distinct_below(s, m as int),
        s.len() == m,
        0 <= v < m,
    ensures
        exists|p: int| 0 <= p < s.len() && s[p] == v,
{
    if !(exists|p: int| 0 <= p < s.len() && s[p] == v) {
        let t = Seq::new(s.len(), |a: int| if s[a] > v { (s[a] - 1) as usize } else { s[a] });
        assert forall|a: int| 0 <= a < t.len() implies #[trigger] t[a] < m - 1 by {
            assert(s[a] < m);
            assert(s[a] != v);
        }
        assert forall|a: int, b: int| 0 <= a < b < t.len() implies #[trigger] t[a]
            != #[trigger] t[b] by {
            assert(s[a] != s[b]);
            assert(s[a] != v && s[b] != v);
        }
        lemma_distinct_fit(t, (m - 1) as nat);
    }
}

/// An ordering holds no position twice.
proof fn lemma_ordering_is_distinct(order: Seq<usize>, keys: Seq<Timestamp>, newest_first: bool)
    requires
        is_ordering(order, keys, newest_first),
    ensures
        distinct_below(order, keys.len() as int),
{
    assert forall|a: int, b: int| 0 <= a < b < order.len() implies #[trigger] order[a]
        != #[trigger] order[b] by {
        assert(comes_before(keys, newest_first, order[a] as int, order[b] as int));
    }
}

/// There is one ordering only: whatever arranges the positions of `keys` is
/// the arrangement.
pub proof fn lemma_ordering_is_unique(order: Seq<usize>, keys: Seq<Timestamp>, newest_first: bool)
    requires
        is_ordering(order, keys, newest_first),
    ensures
        order == ordering(keys, newest_first),
    decreases keys.len(),
{
    if keys.len() == 0 {
        assert(order =~= ordering(keys, newest_first));
    } else {
        let k = keys.len() - 1;
        let head = keys.drop_last();
        lemma_ordering_is_distinct(order, keys, newest_first);
        lemma_all_present(order, keys.len(), k);
        let p = choose|p: int| 0 <= p < order.len() && order[p] == k;
        let rest = order.remove(p);
        assert forall|a: int| 0 <= a < rest.len() implies 0 <= #[trigger] rest[a] < head.len() by {
            let sa = if a < p { a } else { a + 1 };
            assert(rest[a] == order[sa]);
            assert(order[sa] < keys.len());
            assert(order[sa] != order[p]);
        }
        assert forall|a: int, b: int| 0 <= a < b < rest.len() implies comes_before(
            head,
            newest_first,
            #[trigger] rest[a] as int,
            #[trigger] rest[b] as int,
        ) by {
            let sa = if a < p { a } else { a + 1 };
            let sb = if b < p { b } else { b + 1 };
            assert(rest[a] == order[sa] && rest[b] == order[sb]);
            assert(0 <= rest[a] < head.len() && 0 <= rest[b] < head.len());
            assert(comes_before(keys, newest_first, order[sa] as int, order[sb] as int));
        }
        assert(is_ordering(rest, head, newest_first));
        lemma_ordering_is_unique(rest, head, newest_first);
        let earlier = ordering(head, newest_first);
        assert(rest == earlier);
        lemma_insertion_point(keys, newest_first, earlier, k);
        let ip = insertion_point(keys, newest_first, earlier, k);
        assert forall|a: int| p <= a < earlier.len() implies leads(
            keys[k],
            keys[#[trigger] earlier[a] as int],
            newest_first,
        ) by {
            assert(earlier[a] == order[a + 1]);
            assert(comes_before(keys, newest_first, order[p] as int, order[a + 1] as int));
            assert(0 <= earlier[a] < head.len());
        }
        assert forall|a: int| 0 <= a < p implies !leads(
            keys[k],
            keys[#[trigger] earlier[a] as int],
            newest_first,
        ) by {
            assert(earlier[a] == order[a]);
            assert(comes_before(keys, newest_first, order[a] as int, order[p] as int));
        }
        if ip < p {
            assert(!leads(keys[k], keys[earlier[ip] as int], newest_first));
        } else if ip > p {
            assert(leads(keys[k], keys[earlier[ip - 1] as int], newest_first));
        }
        assert(ip == p);
        assert(order =~= earlier.insert(p, k as usize));
    }
}

/// Whether instant `x` leads instant `y`.
pub fn leads_in(x: &Timestamp, y: &Timestamp, newest_first: bool) -> (b: bool)
    ensures
        b == leads(*x, *y, newest_first),
{
    if newest_first {
        y.is_before(x)
    } else {
        x.is_before(y)
    }
}

/// Arranges the positions of `keys` by time, the newest first or the oldest
/// first, leaving equal instants in the order they stand in.
pub fn order_by_time(keys: &Vec<Timestamp>, newest_first: bool) -> (order: Vec<usize>)
    ensures
        order@ == ordering(keys@, newest_first),
        is_ordering(order@, keys@, newest_first),
{
    let mut order: Vec<usize> = Vec::new();
    let mut k: usize = 0;
    while k < keys.len()
        invariant
            k <= keys.len(),
            order@ == ordering(keys@.take(k as int), newest_first),
        decreases keys.len() - k,
    {
        let ghost upto = keys@.take(k as int + 1);
        proof {
            lemma_ordering_is_ordering(keys@.take(k as int), newest_first);
            assert(upto.drop_last() =~= keys@.take(k as int));
            assert(order@.take(order.len() as int) =~= order@);
        }
        let mut pos: usize = order.len();
        while pos > 0 && leads_in(&keys[k], &keys[order[pos - 1]], newest_first)
            invariant
                k < keys.len(),
                pos <= order.len(),
                order.len() == k,
                upto == keys@.take(k as int + 1),
                forall|a: int| 0 <= a < order.len() ==> 0 <= #[trigger] order@[a] < k,
                insertion_point(upto, newest_first, order@, k as int) == insertion_point(
                    upto,
                    newest_first,
                    order@.take(pos as int),
                    k as int,
                ),
            decreases pos,
        {
            proof {
                let part = order@.take(pos as int);
                assert(part.last() == order@[pos - 1]);
                assert(part.drop_last() =~= order@.take(pos - 1));
            }
            pos = pos - 1;
        }
        proof {
            let part = order@.take(pos as int);
            if pos > 0 {
                assert(part.last() == order@[pos - 1]);
            }
            assert(insertion_point(upto, newest_first, part, k as int) == pos);
        }
        order.insert(pos, k);
        k = k + 1;
    }
    proof {
        assert(keys@.take(k as int) =~= keys@);
        lemma_ordering_is_ordering(keys@, newest_first);
    }
    order
}

} // verus!
