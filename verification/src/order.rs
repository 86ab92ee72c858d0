//! Putting entries in the order of time.
use vstd::prelude::*;

use crate::entry::LoadedEntry;

verus! {

/// Whether no entry of `entries` is later than one that follows it.
pub open spec fn in_time_order(entries: Seq<LoadedEntry>) -> bool {
    forall|i: int, j: int|
        0 <= i <= j < entries.len() ==> (#[trigger] entries[i]).timestamp <= (
        #[trigger] entries[j]).timestamp
}

/// The entries of `entries` at the instant `at`, in their order.
pub open spec fn at_instant(entries: Seq<LoadedEntry>, at: i64) -> Seq<LoadedEntry> {
    entries.filter(|entry: LoadedEntry| entry.timestamp == at)
}

/// `sorted`, a sequence in time order, with `entry` put behind each entry that
/// is not later than it.
pub open spec fn insert_in_time_order(
    sorted: Seq<LoadedEntry>,
    entry: LoadedEntry,
) -> Seq<LoadedEntry>
    decreases sorted.len(),
{
    if sorted.len() == 0 || sorted.last().timestamp <= entry.timestamp {
        sorted.push(entry)
    } else {
        insert_in_time_order(sorted.drop_last(), entry).push(sorted.last())
    }
}

/// `entries` in time order, entries of one instant in the order that they have
/// in `entries`.
pub open spec fn time_ordered(entries: Seq<LoadedEntry>) -> Seq<LoadedEntry>
    decreases entries.len(),
{
    if entries.len() == 0 {
        Seq::empty()
    } else {
        insert_in_time_order(time_ordered(entries.drop_last()), entries.last())
    }
}

proof fn lemma_at_instant_push(entries: Seq<LoadedEntry>, entry: LoadedEntry, at: i64)
    ensures
        at_instant(entries.push(entry), at) == if entry.timestamp == at {
            at_instant(entries, at).push(entry)
        } else {
            at_instant(entries, at)
        },
{
    reveal(Seq::filter);
    assert(entries.push(entry).drop_last() =~= entries);
}

proof fn lemma_at_instant_add(a: Seq<LoadedEntry>, b: Seq<LoadedEntry>, at: i64)
    ensures
        at_instant(a + b, at) == at_instant(a, at) + at_instant(b, at),
{
    Seq::filter_distributes_over_add(a, b, |entry: LoadedEntry| entry.timestamp == at);
}

/// Nothing stands at an instant that is later than each entry.
proof fn lemma_at_instant_later(entries: Seq<LoadedEntry>, at: i64)
    requires
        forall|i: int| 0 <= i < entries.len() ==> (#[trigger] entries[i]).timestamp < at,
    ensures
        at_instant(entries, at) == Seq::<LoadedEntry>::empty(),
    decreases entries.len(),
{
    reveal(Seq::filter);
    if entries.len() > 0 {
        lemma_at_instant_later(entries.drop_last(), at);
    }
}

proof fn lemma_insert_in_time_order(sorted: Seq<LoadedEntry>, entry: LoadedEntry)
    requires
        in_time_order(sorted),
    ensures
        in_time_order(insert_in_time_order(sorted, entry)),
        insert_in_time_order(sorted, entry).len() == sorted.len() + 1,
        insert_in_time_order(sorted, entry).to_multiset() == sorted.to_multiset().insert(entry),
        insert_in_time_order(sorted, entry).last().timestamp == if sorted.len() > 0
            && sorted.last().timestamp > entry.timestamp {
            sorted.last().timestamp
        } else {
            entry.timestamp
        },
        forall|at: i64| #[trigger]
            at_instant(insert_in_time_order(sorted, entry), at) == at_instant(
                sorted.push(entry),
                at,
            ),
    decreases sorted.len(),
{
    broadcast use vstd::seq_lib::group_to_multiset_ensures;

    if !(sorted.len() == 0 || sorted.last().timestamp <= entry.timestamp) {
        let front = sorted.drop_last();
        lemma_insert_in_time_order(front, entry);
        let placed = insert_in_time_order(front, entry);
        if front.len() > 0 {
            assert(front.last() == sorted[sorted.len() - 2]);
        }
        assert(sorted =~= front.push(sorted.last()));
        assert(insert_in_time_order(sorted, entry).to_multiset()
            =~= sorted.to_multiset().insert(entry));
        assert forall|at: i64| #[trigger]
            at_instant(insert_in_time_order(sorted, entry), at) == at_instant(
                sorted.push(entry),
                at,
            ) by {
            lemma_at_instant_push(placed, sorted.last(), at);
            lemma_at_instant_push(front, entry, at);
            lemma_at_instant_push(front, sorted.last(), at);
            lemma_at_instant_push(sorted, entry, at);
        }
    }
}

/// The time order of entries holds the same entries and is in time order, and
/// at each instant it has the entries that were there before, in the same order.
pub proof fn law_time_ordered_is_a_stable_sort(entries: Seq<LoadedEntry>)
    ensures
        in_time_order(time_ordered(entries)),
        time_ordered(entries).len() == entries.len(),
        time_ordered(entries).to_multiset() == entries.to_multiset(),
        forall|at: i64| #[trigger]
            at_instant(time_ordered(entries), at) == at_instant(entries, at),
    decreases entries.len(),
{
    broadcast use vstd::seq_lib::group_to_multiset_ensures;

    if entries.len() > 0 {
        let front = entries.drop_last();
        assert(entries =~= front.push(entries.last()));
        law_time_ordered_is_a_stable_sort(front);
        lemma_insert_in_time_order(time_ordered(front), entries.last());
        assert forall|at: i64| #[trigger]
            at_instant(time_ordered(entries), at) == at_instant(entries, at) by {
            lemma_at_instant_push(time_ordered(front), entries.last(), at);
            lemma_at_instant_push(front, entries.last(), at);
        }
    }
}

/// Two sequences in time order that have the same entries at each instant are
/// the same sequence.
proof fn lemma_time_order_is_unique(a: Seq<LoadedEntry>, b: Seq<LoadedEntry>)
    requires
        in_time_order(a),
        in_time_order(b),
        forall|at: i64| #[trigger] at_instant(a, at) == at_instant(b, at),
    ensures
        a == b,
    decreases a.len(),
{
    if a.len() == 0 {
        if b.len() > 0 {
            let at = b.last().timestamp;
            assert(b =~= b.drop_last().push(b.last()));
            lemma_at_instant_push(b.drop_last(), b.last(), at);
            lemma_at_instant_later(a, at);
            assert(at_instant(a, at) == at_instant(b, at));
        }
        assert(a =~= b);
    } else if b.len() == 0 {
        let at = a.last().timestamp;
        assert(a =~= a.drop_last().push(a.last()));
        lemma_at_instant_push(a.drop_last(), a.last(), at);
        lemma_at_instant_later(b, at);
        assert(at_instant(a, at) == at_instant(b, at));
    } else {
        let (x, y) = (a.last(), b.last());
        assert(a =~= a.drop_last().push(x));
        assert(b =~= b.drop_last().push(y));
        assert(at_instant(a, x.timestamp) == at_instant(b, x.timestamp));
        assert(at_instant(a, y.timestamp) == at_instant(b, y.timestamp));
        lemma_at_instant_push(a.drop_last(), x, x.timestamp);
        lemma_at_instant_push(b.drop_last(), y, y.timestamp);
        if x.timestamp < y.timestamp {
            lemma_at_instant_later(a, y.timestamp);
        }
        if y.timestamp < x.timestamp {
            lemma_at_instant_later(b, x.timestamp);
        }
        assert(x.timestamp == y.timestamp);
        assert(at_instant(a, x.timestamp).last() == x);
        assert(at_instant(b, x.timestamp).last() == y);
        assert forall|at: i64| #[trigger]
            at_instant(a.drop_last(), at) == at_instant(b.drop_last(), at) by {
            lemma_at_instant_push(a.drop_last(), x, at);
            lemma_at_instant_push(b.drop_last(), y, at);
            assert(at_instant(a, at) == at_instant(b, at));
            if at == x.timestamp {
                assert(at_instant(a.drop_last(), at) =~= at_instant(a, at).drop_last());
                assert(at_instant(b.drop_last(), at) =~= at_instant(b, at).drop_last());
            }
        }
        lemma_time_order_is_unique(a.drop_last(), b.drop_last());
    }
}

/// A sequence in time order that has the entries of `entries` at each instant
/// is the time order of `entries`.
pub proof fn law_stable_sort_is_unique(sorted: Seq<LoadedEntry>, entries: Seq<LoadedEntry>)
    requires
        in_time_order(sorted),
        forall|at: i64| #[trigger] at_instant(sorted, at) == at_instant(entries, at),
    ensures
        sorted == time_ordered(entries),
{
    law_time_ordered_is_a_stable_sort(entries);
    assert forall|at: i64| #[trigger]
        at_instant(sorted, at) == at_instant(time_ordered(entries), at) by {
        assert(at_instant(time_ordered(entries), at) == at_instant(entries, at));
    }
    lemma_time_order_is_unique(sorted, time_ordered(entries));
}

/// Picking entries and looking at one instant can be done in either order.
proof fn lemma_at_instant_filter(
    entries: Seq<LoadedEntry>,
    pick: spec_fn(LoadedEntry) -> bool,
    at: i64,
)
    ensures
        at_instant(entries.filter(pick), at) == at_instant(entries, at).filter(pick),
    decreases entries.len(),
{
    reveal(Seq::filter);
    if entries.len() > 0 {
        let front = entries.drop_last();
        let last = entries.last();
        lemma_at_instant_filter(front, pick, at);
        assert(entries =~= front.push(last));
        lemma_at_instant_push(front, last, at);
        if pick(last) {
            lemma_at_instant_push(front.filter(pick), last, at);
        }
        if last.timestamp == at {
            assert(at_instant(front, at).push(last).drop_last() =~= at_instant(front, at));
        }
    }
}

/// Each entry picked is one of the entries.
pub proof fn lemma_filter_occurs(
    entries: Seq<LoadedEntry>,
    pick: spec_fn(LoadedEntry) -> bool,
    k: int,
)
    requires
        0 <= k < entries.filter(pick).len(),
    ensures
        pick(entries.filter(pick)[k]),
        exists|i: int| 0 <= i < entries.len() && entries[i] == entries.filter(pick)[k],
    decreases entries.len(),
{
    reveal(Seq::filter);
    if entries.len() > 0 {
        let front = entries.drop_last();
        if k < front.filter(pick).len() {
            lemma_filter_occurs(front, pick, k);
            let i = choose|i: int| 0 <= i < front.len() && front[i] == front.filter(pick)[k];
            assert(entries[i] == entries.filter(pick)[k]);
        } else {
            assert(entries[entries.len() - 1] == entries.filter(pick)[k]);
        }
    }
}

proof fn lemma_filter_in_time_order(
    entries: Seq<LoadedEntry>,
    pick: spec_fn(LoadedEntry) -> bool,
)
    requires
        in_time_order(entries),
    ensures
        in_time_order(entries.filter(pick)),
    decreases entries.len(),
{
    reveal(Seq::filter);
    if entries.len() > 0 {
        let front = entries.drop_last();
        let picked = front.filter(pick);
        assert(in_time_order(front)) by {
            assert forall|i: int, j: int| 0 <= i <= j < front.len() implies (
            #[trigger] front[i]).timestamp <= (#[trigger] front[j]).timestamp by {
                assert(entries[i].timestamp <= entries[j].timestamp);
            }
        }
        lemma_filter_in_time_order(front, pick);
        assert forall|k: int| 0 <= k < picked.len() implies (#[trigger] picked[k]).timestamp
            <= entries.last().timestamp by {
            lemma_filter_occurs(front, pick, k);
            let i = choose|i: int| 0 <= i < front.len() && front[i] == picked[k];
            assert(entries[i].timestamp <= entries[entries.len() - 1].timestamp);
        }
    }
}

/// Picking entries does not depend on whether it is done before or after they
/// are put in time order.
pub proof fn law_picking_keeps_the_time_order(
    entries: Seq<LoadedEntry>,
    pick: spec_fn(LoadedEntry) -> bool,
)
    ensures
        time_ordered(entries).filter(pick) == time_ordered(entries.filter(pick)),
{
    let picked = time_ordered(entries).filter(pick);
    law_time_ordered_is_a_stable_sort(entries);
    lemma_filter_in_time_order(time_ordered(entries), pick);
    assert forall|at: i64| #[trigger]
        at_instant(picked, at) == at_instant(entries.filter(pick), at) by {
        lemma_at_instant_filter(time_ordered(entries), pick, at);
        lemma_at_instant_filter(entries, pick, at);
        assert(at_instant(time_ordered(entries), at) == at_instant(entries, at));
    }
    law_stable_sort_is_unique(picked, entries.filter(pick));
}

/// The entries of `entries` from the last to the first.
fn reversed(entries: Vec<LoadedEntry>) -> (result: Vec<LoadedEntry>)
    ensures
        result@ == entries@.reverse(),
{
    let ghost all = entries@;
    let mut rest = entries;
    let mut result: Vec<LoadedEntry> = Vec::new();
    while rest.len() > 0
        invariant
            rest@.len() + result@.len() == all.len(),
            rest@ == all.take(rest@.len() as int),
            forall|i: int|
                0 <= i < result@.len() ==> #[trigger] result@[i] == all[all.len() - 1 - i],
        decreases rest.len(),
    {
        if let Some(entry) = rest.pop() {
            result.push(entry);
        }
    }
    result
}

/// Merges two sequences in time order; of one instant, those of `earlier` come
/// first.
fn merged(earlier: Vec<LoadedEntry>, later: Vec<LoadedEntry>) -> (result: Vec<LoadedEntry>)
    requires
        in_time_order(earlier@),
        in_time_order(later@),
    ensures
        in_time_order(result@),
        forall|at: i64| #[trigger]
            at_instant(result@, at) == at_instant(earlier@, at) + at_instant(later@, at),
{
    let ghost (all_a, all_b) = (earlier@, later@);
    let mut a = earlier;
    let mut b = later;
    let mut backward: Vec<LoadedEntry> = Vec::new();
    let ghost mut tail: Seq<LoadedEntry> = Seq::empty();
    assert(backward@.reverse() =~= tail);
    assert forall|at: i64| #[trigger]
        at_instant(all_a, at) + at_instant(all_b, at) == at_instant(a@, at) + at_instant(b@, at)
            + at_instant(tail, at) by {
        lemma_at_instant_later(tail, at);
        assert(at_instant(a@, at) + at_instant(b@, at) + at_instant(tail, at) =~= at_instant(a@, at)
            + at_instant(b@, at));
    }
    while a.len() > 0 || b.len() > 0
        invariant
            in_time_order(a@),
            in_time_order(b@),
            in_time_order(tail),
            tail == backward@.reverse(),
            tail.len() > 0 && a@.len() > 0 ==> a@.last().timestamp <= tail[0].timestamp,
            tail.len() > 0 && b@.len() > 0 ==> b@.last().timestamp <= tail[0].timestamp,
            forall|at: i64|
                #![trigger at_instant(tail, at)]
                #![trigger at_instant(all_a, at)]
                at_instant(all_a, at) + at_instant(all_b, at) == at_instant(a@, at) + at_instant(
                    b@,
                    at,
                ) + at_instant(tail, at),
        decreases a.len() + b.len(),
    {
        let ghost (a_before, b_before, tail_before) = (a@, b@, tail);
        let from_a = if b.len() == 0 {
            true
        } else if a.len() == 0 {
            false
        } else {
            a[a.len() - 1].timestamp > b[b.len() - 1].timestamp
        };
        let next = if from_a { a.pop() } else { b.pop() };
        if let Some(entry) = next {
            backward.push(entry);
            proof {
                tail = seq![entry] + tail_before;
                assert(backward@.reverse() =~= tail);
                if from_a {
                    assert(a_before =~= a@.push(entry));
                } else {
                    assert(b_before =~= b@.push(entry));
                }
                assert forall|at: i64|
                    #![trigger at_instant(tail, at)]
                    #![trigger at_instant(all_a, at)]
                    at_instant(all_a, at) + at_instant(all_b, at) == at_instant(a@, at)
                        + at_instant(b@, at) + at_instant(tail, at) by {
                    let single = seq![entry];
                    assert(single =~= Seq::<LoadedEntry>::empty().push(entry));
                    lemma_at_instant_push(Seq::empty(), entry, at);
                    lemma_at_instant_add(single, tail_before, at);
                    reveal(Seq::filter);
                    assert(at_instant(Seq::empty(), at) =~= Seq::empty());
                    if from_a {
                        lemma_at_instant_push(a@, entry, at);
                        if at == entry.timestamp {
                            lemma_at_instant_later(b@, at);
                        }
                    } else {
                        lemma_at_instant_push(b@, entry, at);
                    }
                    assert(at_instant(a_before, at) + at_instant(b_before, at) + at_instant(
                        tail_before,
                        at,
                    ) =~= at_instant(a@, at) + at_instant(b@, at) + at_instant(tail, at));
                }
            }
        }
    }
    let result = reversed(backward);
    assert forall|at: i64| #[trigger]
        at_instant(result@, at) == at_instant(all_a, at) + at_instant(all_b, at) by {
        lemma_at_instant_later(a@, at);
        lemma_at_instant_later(b@, at);
        assert(at_instant(a@, at) + at_instant(b@, at) + at_instant(tail, at) =~= at_instant(
            tail,
            at,
        ));
    }
    result
}

/// Sorts entries by their timestamps. Entries of one instant keep their order.
pub fn sort_by_timestamp(entries: Vec<LoadedEntry>) -> (sorted: Vec<LoadedEntry>)
    ensures
        sorted@ == time_ordered(entries@),
        forall|i: int, j: int|
            0 <= i <= j < sorted@.len() ==> (#[trigger] sorted@[i]).timestamp <= (
            #[trigger] sorted@[j]).timestamp,
        sorted@.to_multiset() == entries@.to_multiset(),
    decreases entries.len(),
{
    let ghost all = entries@;
    if entries.len() < 2 {
        assert(in_time_order(all));
        proof {
            law_stable_sort_is_unique(all, all);
            law_time_ordered_is_a_stable_sort(all);
        }
        return entries;
    }
    let mut front = entries;
    let half: usize = front.len() / 2;
    let back = front.split_off(half);
    let ghost (all_front, all_back) = (front@, back@);
    assert(all =~= all_front + all_back);
    proof {
        law_time_ordered_is_a_stable_sort(all_front);
        law_time_ordered_is_a_stable_sort(all_back);
    }
    let sorted = merged(sort_by_timestamp(front), sort_by_timestamp(back));
    proof {
        assert forall|at: i64| #[trigger] at_instant(sorted@, at) == at_instant(all, at) by {
            lemma_at_instant_add(all_front, all_back, at);
            assert(at_instant(time_ordered(all_front), at) == at_instant(all_front, at));
            assert(at_instant(time_ordered(all_back), at) == at_instant(all_back, at));
        }
        law_stable_sort_is_unique(sorted@, all);
        law_time_ordered_is_a_stable_sort(all);
    }
    sorted
}

/// Putting entries in time order loses none, adds none, leaves no entry behind a
/// later one, and keeps the entries of an instant in the order that they had.
pub proof fn law_time_order_keeps_entries_and_instants(entries: Seq<LoadedEntry>, at: i64)
    ensures
        forall|i: int, j: int|
            0 <= i <= j < time_ordered(entries).len() ==> (
            #[trigger] time_ordered(entries)[i]).timestamp <= (
            #[trigger] time_ordered(entries)[j]).timestamp,
        time_ordered(entries).to_multiset() == entries.to_multiset(),
        time_ordered(entries).filter(|entry: LoadedEntry| entry.timestamp == at) == entries.filter(
            |entry: LoadedEntry| entry.timestamp == at,
        ),
{
    law_time_ordered_is_a_stable_sort(entries);
    assert(at_instant(time_ordered(entries), at) == at_instant(entries, at));
}

} // verus!
