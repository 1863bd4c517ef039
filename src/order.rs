//! Ordering of events by start time: a stable insertion order and the
//! facts the cache relies on.
use vstd::prelude::*;

use crate::events::{events_view, CalendarEvent, EventView};

verus! {

pub open spec fn starts_no_later(a: EventView, b: EventView) -> bool {
    a.start_time.timestamp <= b.start_time.timestamp
}

/// Ascending by start time.
pub open spec fn sorted_by_start(s: Seq<EventView>) -> bool {
    forall|i: int, j: int| 0 <= i < j < s.len() ==> starts_no_later(#[trigger] s[i], #[trigger] s[j])
}

/// `s` with `e` placed after every element that starts no later than it.
pub open spec fn insert_by_start(s: Seq<EventView>, e: EventView) -> Seq<EventView>
    decreases s.len(),
{
    if s.len() == 0 || starts_no_later(s.last(), e) {
        s.push(e)
    } else {
        insert_by_start(s.drop_last(), e).push(s.last())
    }
}

/// `s` sorted by start time; events that start together keep their order.
pub open spec fn sort_by_start(s: Seq<EventView>) -> Seq<EventView>
    decreases s.len(),
{
    if s.len() == 0 {
        s
    } else {
        insert_by_start(sort_by_start(s.drop_last()), s.last())
    }
}

/// Inserting at the position after the last element that starts no later.
proof fn lemma_insert_at(s: Seq<EventView>, e: EventView, j: int)
    requires
        0 <= j <= s.len(),
        j == 0 || starts_no_later(s[j - 1], e),
        forall|k: int| j <= k < s.len() ==> !starts_no_later(#[trigger] s[k], e),
    ensures
        insert_by_start(s, e) == s.insert(j, e),
    decreases s.len(),
{
    if j == s.len() {
        assert(s.insert(j, e) =~= s.push(e));
    } else {
        let t = s.drop_last();
        lemma_insert_at(t, e, j);
        assert(s.insert(j, e) =~= t.insert(j, e).push(s.last()));
    }
}

/// Inserting into a sorted sequence keeps it sorted.
pub proof fn lemma_insert_sorted(s: Seq<EventView>, e: EventView)
    requires
        sorted_by_start(s),
    ensures
        sorted_by_start(insert_by_start(s, e)),
        insert_by_start(s, e).len() == s.len() + 1,
        forall|x: EventView| #[trigger]
            insert_by_start(s, e).contains(x) <==> (s.contains(x) || x == e),
    decreases s.len(),
{
    if s.len() == 0 || starts_no_later(s.last(), e) {
        assert forall|x: EventView| #[trigger] s.push(e).contains(x) <==> (s.contains(x) || x == e) by {
            if s.push(e).contains(x) {
                let k = choose|k: int| 0 <= k < s.len() + 1 && s.push(e)[k] == x;
                if k < s.len() {
                    assert(s[k] == x);
                }
            }
            if s.contains(x) {
                let k = choose|k: int| 0 <= k < s.len() && s[k] == x;
                assert(s.push(e)[k] == x);
            }
            if x == e {
                assert(s.push(e)[s.len() as int] == x);
            }
        }
    } else {
        let t = s.drop_last();
        assert(sorted_by_start(t));
        lemma_insert_sorted(t, e);
        let u = insert_by_start(t, e);
        let r = u.push(s.last());
        assert forall|x: EventView| #[trigger] r.contains(x) <==> (s.contains(x) || x == e) by {
            if r.contains(x) {
                let k = choose|k: int| 0 <= k < r.len() && r[k] == x;
                if k < u.len() {
                    assert(u.contains(x));
                    if t.contains(x) {
                        let m = choose|m: int| 0 <= m < t.len() && t[m] == x;
                        assert(s[m] == x);
                    }
                } else {
                    assert(s[s.len() - 1] == x);
                }
            }
            if s.contains(x) {
                let k = choose|k: int| 0 <= k < s.len() && s[k] == x;
                if k < t.len() {
                    assert(t[k] == x);
                    assert(u.contains(x));
                    let m = choose|m: int| 0 <= m < u.len() && u[m] == x;
                    assert(r[m] == x);
                } else {
                    assert(r[u.len() as int] == x);
                }
            }
            if x == e {
                assert(u.contains(x));
                let m = choose|m: int| 0 <= m < u.len() && u[m] == x;
                assert(r[m] == x);
            }
        }
        assert forall|i: int, j: int| 0 <= i < j < r.len() implies starts_no_later(
            #[trigger] r[i],
            #[trigger] r[j],
        ) by {
            if j == r.len() - 1 {
                assert(u.contains(r[i]));
                if t.contains(r[i]) {
                    let m = choose|m: int| 0 <= m < t.len() && t[m] == r[i];
                    assert(s[m] == r[i]);
                }
            }
        }
    }
}

/// Sorting yields a sorted sequence of the same length.
pub proof fn lemma_sort_sorted(s: Seq<EventView>)
    ensures
        sorted_by_start(sort_by_start(s)),
        sort_by_start(s).len() == s.len(),
    decreases s.len(),
{
    if s.len() > 0 {
        lemma_sort_sorted(s.drop_last());
        lemma_insert_sorted(sort_by_start(s.drop_last()), s.last());
    }
}

proof fn lemma_insert_permutes(s: Seq<EventView>, e: EventView)
    ensures
        insert_by_start(s, e).to_multiset() =~= s.to_multiset().insert(e),
    decreases s.len(),
{
    broadcast use vstd::seq_lib::group_to_multiset_ensures;

    if s.len() > 0 && !starts_no_later(s.last(), e) {
        let t = s.drop_last();
        lemma_insert_permutes(t, e);
        assert(t.push(s.last()) =~= s);
    }
}

/// Sorting only reorders: the sorted sequence holds the same events, each
/// as often.
pub proof fn lemma_sort_permutes(s: Seq<EventView>)
    ensures
        sort_by_start(s).to_multiset() =~= s.to_multiset(),
    decreases s.len(),
{
    broadcast use vstd::seq_lib::group_to_multiset_ensures;

    if s.len() > 0 {
        lemma_sort_permutes(s.drop_last());
        lemma_insert_permutes(sort_by_start(s.drop_last()), s.last());
        assert(s.drop_last().push(s.last()) =~= s);
    }
}

/// Places `e` in `v` after every event that starts no later than it.
pub fn insert_event(v: &mut Vec<CalendarEvent>, e: CalendarEvent)
    ensures
        events_view(final(v)@) == insert_by_start(events_view(old(v)@), e@),
{
    let ghost s = events_view(v@);
    let mut j: usize = v.len();
    while j > 0 && v[j - 1].start_time.timestamp > e.start_time.timestamp
        invariant
            j <= v.len(),
            s == events_view(v@),
            forall|k: int| j <= k < s.len() ==> !starts_no_later(#[trigger] s[k], e@),
        decreases j,
    {
        j -= 1;
    }
    proof {
        lemma_insert_at(s, e@, j as int);
    }
    v.insert(j, e);
    assert(events_view(v@) =~= s.insert(j as int, e@));
}

} // verus!
