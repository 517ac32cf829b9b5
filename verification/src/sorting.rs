//! Stable ordering of events by position.
use vstd::prelude::*;
use crate::domain::TrackEvent;

verus! {

/// `e` placed after every element of `s` whose position is not after its own.
pub open spec fn insert_by_position(s: Seq<TrackEvent>, e: TrackEvent) -> Seq<TrackEvent>
    decreases s.len(),
{
    if s.len() == 0 {
        seq![e]
    } else if e.pos() < s[0].pos() {
        seq![e] + s
    } else {
        seq![s[0]] + insert_by_position(s.drop_first(), e)
    }
}

/// The events stably ordered by position: equal positions keep their order.
pub open spec fn sort_by_position(s: Seq<TrackEvent>) -> Seq<TrackEvent>
    decreases s.len(),
{
    if s.len() == 0 {
        s
    } else {
        insert_by_position(sort_by_position(s.drop_last()), s.last())
    }
}

pub open spec fn sorted_by_position(s: Seq<TrackEvent>) -> bool {
    forall|i: int, j: int| 0 <= i <= j < s.len() ==> #[trigger] s[i].pos() <= #[trigger] s[j].pos()
}

/// Inserting before the first later element is what `insert_by_position` does.
proof fn lemma_insert_at(s: Seq<TrackEvent>, e: TrackEvent, j: int)
    requires
        0 <= j <= s.len(),
        forall|k: int| 0 <= k < j ==> #[trigger] s[k].pos() <= e.pos(),
        j < s.len() ==> e.pos() < s[j].pos(),
    ensures
        insert_by_position(s, e) == s.insert(j, e),
    decreases s.len(),
{
    if s.len() == 0 {
        assert(s.insert(j, e) =~= seq![e]);
    } else if e.pos() < s[0].pos() {
        if j > 0 {
            assert(s[0].pos() <= e.pos());
        }
        assert(s.insert(0, e) =~= seq![e] + s);
    } else {
        if j == 0 {
            assert(e.pos() < s[0].pos());
        }
        let t = s.drop_first();
        assert forall|k: int| 0 <= k < j - 1 implies #[trigger] t[k].pos() <= e.pos() by {
            assert(t[k] == s[k + 1]);
        }
        if j - 1 < t.len() {
            assert(t[j - 1] == s[j]);
        }
        lemma_insert_at(t, e, j - 1);
        assert(seq![s[0]] + t.insert(j - 1, e) =~= s.insert(j, e));
    }
}

/// Inserting into an ordered sequence keeps it ordered and adds exactly one element.
proof fn lemma_insert_sorted(s: Seq<TrackEvent>, e: TrackEvent)
    requires
        sorted_by_position(s),
    ensures
        sorted_by_position(insert_by_position(s, e)),
        insert_by_position(s, e).to_multiset() == s.to_multiset().insert(e),
        insert_by_position(s, e).len() == s.len() + 1,
    decreases s.len(),
{
    broadcast use vstd::seq_lib::group_to_multiset_ensures;
    if s.len() == 0 {
        assert(seq![e] =~= Seq::<TrackEvent>::empty().push(e));
    } else if e.pos() < s[0].pos() {
        let r = seq![e] + s;
        assert forall|i: int, j: int| 0 <= i <= j < r.len() implies #[trigger] r[i].pos() <= #[trigger] r[j].pos() by {
            if i == 0 {
                if j > 0 {
                    assert(r[j] == s[j - 1]);
                    assert(s[0].pos() <= s[j - 1].pos());
                }
            } else {
                assert(r[i] == s[i - 1]);
                assert(r[j] == s[j - 1]);
            }
        }
        vstd::seq_lib::lemma_multiset_commutative(seq![e], s);
        assert(seq![e] =~= Seq::<TrackEvent>::empty().push(e));
    } else {
        let t = s.drop_first();
        assert forall|i: int, j: int| 0 <= i <= j < t.len() implies #[trigger] t[i].pos() <= #[trigger] t[j].pos() by {
            assert(t[i] == s[i + 1]);
            assert(t[j] == s[j + 1]);
        }
        lemma_insert_sorted(t, e);
        let it = insert_by_position(t, e);
        let r = seq![s[0]] + it;
        lemma_insert_contents(t, e);
        assert forall|i: int, j: int| 0 <= i <= j < r.len() implies #[trigger] r[i].pos() <= #[trigger] r[j].pos() by {
            if i == 0 {
                if j > 0 {
                    assert(r[j] == it[j - 1]);
                    let x = it[j - 1];
                    assert(it.contains(x));
                    if x != e {
                        assert(t.contains(x));
                        let k = choose|k: int| 0 <= k < t.len() && t[k] == x;
                        assert(t[k] == s[k + 1]);
                        assert(s[0].pos() <= s[k + 1].pos());
                    }
                }
            } else {
                assert(r[i] == it[i - 1]);
                assert(r[j] == it[j - 1]);
            }
        }
        vstd::seq_lib::lemma_multiset_commutative(seq![s[0]], it);
        vstd::seq_lib::lemma_multiset_commutative(seq![s[0]], t);
        assert(s =~= seq![s[0]] + t);
    }
}

/// Every element of an insertion comes from the sequence or is the inserted event.
proof fn lemma_insert_contents(s: Seq<TrackEvent>, e: TrackEvent)
    ensures
        forall|x: TrackEvent| #[trigger] insert_by_position(s, e).contains(x) ==> x == e || s.contains(x),
    decreases s.len(),
{
    if s.len() == 0 {
    } else if e.pos() < s[0].pos() {
        assert forall|x: TrackEvent| #[trigger] insert_by_position(s, e).contains(x) implies x == e || s.contains(x) by {
            let r = seq![e] + s;
            let k = choose|k: int| 0 <= k < r.len() && r[k] == x;
            if k > 0 {
                assert(s[k - 1] == x);
            }
        }
    } else {
        let t = s.drop_first();
        lemma_insert_contents(t, e);
        assert forall|x: TrackEvent| #[trigger] insert_by_position(s, e).contains(x) implies x == e || s.contains(x) by {
            let r = seq![s[0]] + insert_by_position(t, e);
            let k = choose|k: int| 0 <= k < r.len() && r[k] == x;
            if k > 0 {
                assert(insert_by_position(t, e).contains(x));
                if x != e {
                    let m = choose|m: int| 0 <= m < t.len() && t[m] == x;
                    assert(s[m + 1] == x);
                }
            } else {
                assert(s[0] == x);
            }
        }
    }
}

/// Sorting orders the events by position and keeps exactly the same events.
pub proof fn lemma_sort_by_position(s: Seq<TrackEvent>)
    ensures
        sorted_by_position(sort_by_position(s)),
        sort_by_position(s).to_multiset() == s.to_multiset(),
        sort_by_position(s).len() == s.len(),
    decreases s.len(),
{
    broadcast use vstd::seq_lib::group_to_multiset_ensures;
    if s.len() > 0 {
        lemma_sort_by_position(s.drop_last());
        lemma_insert_sorted(sort_by_position(s.drop_last()), s.last());
        assert(s =~= s.drop_last().push(s.last()));
    }
}

/// An event list that is already ordered by position is left as it is.
pub proof fn lemma_sort_sorted_identity(s: Seq<TrackEvent>)
    requires
        sorted_by_position(s),
    ensures
        sort_by_position(s) == s,
    decreases s.len(),
{
    if s.len() > 0 {
        let t = s.drop_last();
        assert forall|i: int, j: int| 0 <= i <= j < t.len() implies #[trigger] t[i].pos() <= #[trigger] t[j].pos() by {
            assert(t[i] == s[i]);
            assert(t[j] == s[j]);
        }
        lemma_sort_sorted_identity(t);
        assert forall|k: int| 0 <= k < t.len() implies #[trigger] t[k].pos() <= s.last().pos() by {
            assert(t[k] == s[k]);
        }
        lemma_insert_at(t, s.last(), t.len() as int);
        assert(t.insert(t.len() as int, s.last()) =~= s);
    }
}

/// Orders the events stably by position.
pub fn sort_events_by_position(events: &mut Vec<TrackEvent>)
    ensures
        final(events)@ == sort_by_position(old(events)@),
{
    let ghost e0 = events@;
    let n = events.len();
    let mut result: Vec<TrackEvent> = Vec::new();
    let mut i: usize = 0;
    while i < n
        invariant
            i <= n,
            n == e0.len(),
            events@ == e0,
            result@ == sort_by_position(e0.take(i as int)),
        decreases n - i,
    {
        let e = events[i];
        let ghost before = result@;
        let mut j: usize = 0;
        while j < result.len() && result[j].position() <= e.position()
            invariant
                j <= result@.len(),
                result@ == before,
                forall|k: int| 0 <= k < j ==> #[trigger] result@[k].pos() <= e.pos(),
            decreases result@.len() - j,
        {
            j = j + 1;
        }
        proof {
            lemma_insert_at(before, e, j as int);
            assert(e0.take(i + 1).drop_last() =~= e0.take(i as int));
            assert(e0.take(i + 1).last() == e);
        }
        result.insert(j, e);
        i = i + 1;
    }
    assert(e0.take(n as int) =~= e0);
    *events = result;
}

} // verus!
