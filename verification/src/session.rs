//! Keeping one entry for each session.
use vstd::hash_set::StringHashSet;
use vstd::prelude::*;

use crate::entry::LoadedEntry;
use crate::order;

verus! {

/// The session identifiers that occur in `entries`.
pub open spec fn session_ids(entries: Seq<LoadedEntry>) -> Set<Seq<char>> {
    Set::new(
        |id: Seq<char>|
            exists|i: int|
                0 <= i < entries.len() && (#[trigger] entries[i]).session_id@ == id,
    )
}

/// `entries` without each entry whose session occurs earlier in `entries`.
pub open spec fn first_of_each_session(entries: Seq<LoadedEntry>) -> Seq<LoadedEntry>
    decreases entries.len(),
{
    if entries.len() == 0 {
        Seq::empty()
    } else {
        let earlier = entries.drop_last();
        let kept = first_of_each_session(earlier);
        if session_ids(earlier).contains(entries.last().session_id@) {
            kept
        } else {
            kept.push(entries.last())
        }
    }
}

/// Whether the entry at `i` is the first of its session.
pub open spec fn opens_session(entries: Seq<LoadedEntry>, i: int) -> bool {
    &&& 0 <= i < entries.len()
    &&& forall|j: int|
        0 <= j < i ==> (#[trigger] entries[j]).session_id@ != entries[i].session_id@
}

/// The entries of `entries` whose sessions are not among `known`.
pub open spec fn of_other_sessions(
    entries: Seq<LoadedEntry>,
    known: Set<Seq<char>>,
) -> Seq<LoadedEntry> {
    entries.filter(|entry: LoadedEntry| !known.contains(entry.session_id@))
}

/// What is kept are entries that are the first of their sessions, all of them,
/// one for each session.
pub proof fn law_first_entry_of_each_session_is_kept(entries: Seq<LoadedEntry>)
    ensures
        session_ids(first_of_each_session(entries)) == session_ids(entries),
        forall|i: int, j: int|
            0 <= i < j < first_of_each_session(entries).len() ==> (
            #[trigger] first_of_each_session(entries)[i]).session_id@ != (
            #[trigger] first_of_each_session(entries)[j]).session_id@,
        forall|i: int| #[trigger]
            opens_session(entries, i) ==> first_of_each_session(entries).contains(entries[i]),
        forall|k: int|
            0 <= k < first_of_each_session(entries).len() ==> exists|i: int|
                #[trigger] opens_session(entries, i) && entries[i] == (
                #[trigger] first_of_each_session(entries)[k]),
    decreases entries.len(),
{
    let kept = first_of_each_session(entries);
    if entries.len() == 0 {
        assert(session_ids(kept) =~= session_ids(entries));
    } else {
        let earlier = entries.drop_last();
        let last = entries.last();
        let kept_earlier = first_of_each_session(earlier);
        law_first_entry_of_each_session_is_kept(earlier);
        let repeated = session_ids(earlier).contains(last.session_id@);
        assert forall|id: Seq<char>| session_ids(kept).contains(id) <==> session_ids(
            entries,
        ).contains(id) by {
            if session_ids(kept).contains(id) {
                let i = choose|i: int|
                    0 <= i < kept.len() && (#[trigger] kept[i]).session_id@ == id;
                if i < kept_earlier.len() {
                    assert(kept_earlier[i].session_id@ == id);
                    assert(session_ids(earlier).contains(id));
                    let j = choose|j: int|
                        0 <= j < earlier.len() && (#[trigger] earlier[j]).session_id@ == id;
                    assert(entries[j].session_id@ == id);
                } else {
                    assert(entries[entries.len() - 1].session_id@ == id);
                }
            }
            if session_ids(entries).contains(id) {
                let i = choose|i: int|
                    0 <= i < entries.len() && (#[trigger] entries[i]).session_id@ == id;
                if i < earlier.len() {
                    assert(earlier[i].session_id@ == id);
                }
                if i < earlier.len() || repeated {
                    assert(session_ids(kept_earlier).contains(id));
                    let j = choose|j: int|
                        0 <= j < kept_earlier.len() && (#[trigger] kept_earlier[j]).session_id@
                            == id;
                    assert(kept[j].session_id@ == id);
                } else {
                    assert(kept[kept.len() - 1].session_id@ == id);
                }
            }
        }
        assert(session_ids(kept) =~= session_ids(entries));
        assert forall|i: int, j: int| 0 <= i < j < kept.len() implies (
        #[trigger] kept[i]).session_id@ != (#[trigger] kept[j]).session_id@ by {
            assert(kept_earlier[i] == kept[i]);
            if j == kept_earlier.len() {
                assert(session_ids(kept_earlier).contains(kept_earlier[i].session_id@));
            } else {
                assert(kept_earlier[j] == kept[j]);
            }
        }
        assert forall|i: int| #[trigger] opens_session(entries, i) implies kept.contains(
            entries[i],
        ) by {
            if i < earlier.len() {
                assert forall|j: int| 0 <= j < i implies (#[trigger] earlier[j]).session_id@
                    != earlier[i].session_id@ by {
                    assert(entries[j] == earlier[j]);
                }
                assert(opens_session(earlier, i));
                let k = choose|k: int|
                    0 <= k < kept_earlier.len() && kept_earlier[k] == earlier[i];
                assert(kept[k] == entries[i]);
            } else {
                if repeated {
                    let j = choose|j: int|
                        0 <= j < earlier.len() && (#[trigger] earlier[j]).session_id@
                            == last.session_id@;
                    assert(entries[j].session_id@ == entries[i].session_id@);
                }
                assert(kept[kept.len() - 1] == entries[i]);
            }
        }
        assert forall|k: int| 0 <= k < kept.len() implies exists|i: int|
            #[trigger] opens_session(entries, i) && entries[i] == (#[trigger] kept[k]) by {
            if k < kept_earlier.len() {
                assert(kept[k] == kept_earlier[k]);
                let i = choose|i: int| #[trigger]
                    opens_session(earlier, i) && earlier[i] == kept_earlier[k];
                assert forall|j: int| 0 <= j < i implies (#[trigger] entries[j]).session_id@
                    != entries[i].session_id@ by {
                    assert(entries[j] == earlier[j]);
                }
                assert(opens_session(entries, i));
            } else {
                let i = entries.len() - 1;
                assert forall|j: int| 0 <= j < i implies (#[trigger] entries[j]).session_id@
                    != entries[i].session_id@ by {
                    assert(entries[j] == earlier[j]);
                }
                assert(opens_session(entries, i));
            }
        }
    }
}

proof fn lemma_of_other_sessions_push(
    entries: Seq<LoadedEntry>,
    entry: LoadedEntry,
    known: Set<Seq<char>>,
)
    ensures
        of_other_sessions(entries.push(entry), known) == if known.contains(entry.session_id@) {
            of_other_sessions(entries, known)
        } else {
            of_other_sessions(entries, known).push(entry)
        },
{
    reveal(Seq::filter);
    assert(entries.push(entry).drop_last() =~= entries);
}

/// A session that is not known stands among the entries of other sessions just
/// where it stands among all of them.
proof fn lemma_of_other_sessions_ids(
    entries: Seq<LoadedEntry>,
    known: Set<Seq<char>>,
    id: Seq<char>,
)
    requires
        !known.contains(id),
    ensures
        session_ids(of_other_sessions(entries, known)).contains(id) <==> session_ids(
            entries,
        ).contains(id),
{
    let pred = |entry: LoadedEntry| !known.contains(entry.session_id@);
    let others = of_other_sessions(entries, known);
    if session_ids(entries).contains(id) {
        let i = choose|i: int|
            0 <= i < entries.len() && (#[trigger] entries[i]).session_id@ == id;
        entries.lemma_filter_contains(pred, i);
        let k = choose|k: int| 0 <= k < others.len() && others[k] == entries[i];
        assert(others[k].session_id@ == id);
    }
    if session_ids(others).contains(id) {
        let k = choose|k: int| 0 <= k < others.len() && (#[trigger] others[k]).session_id@ == id;
        lemma_of_other_sessions_occur(entries, known, k);
        let i = choose|i: int| 0 <= i < entries.len() && entries[i] == others[k];
        assert(entries[i].session_id@ == id);
    }
}

proof fn lemma_of_other_sessions_occur(entries: Seq<LoadedEntry>, known: Set<Seq<char>>, k: int)
    requires
        0 <= k < of_other_sessions(entries, known).len(),
    ensures
        entries.contains(of_other_sessions(entries, known)[k]),
{
    order::lemma_filter_occurs(
        entries,
        |entry: LoadedEntry| !known.contains(entry.session_id@),
        k,
    );
}

/// Of two loads in a row the first decides: what it keeps alone is kept, and
/// the second adds only sessions that the first does not have.
pub proof fn law_earlier_source_wins(first: Seq<LoadedEntry>, second: Seq<LoadedEntry>)
    ensures
        first_of_each_session(first + second) == first_of_each_session(first)
            + first_of_each_session(of_other_sessions(second, session_ids(first))),
    decreases second.len(),
{
    let known = session_ids(first);
    if second.len() == 0 {
        reveal(Seq::filter);
        assert(first + second =~= first);
        assert(of_other_sessions(second, known) =~= Seq::empty());
        assert(first_of_each_session(first) + Seq::<LoadedEntry>::empty()
            =~= first_of_each_session(first));
    } else {
        let earlier = second.drop_last();
        let last = second.last();
        let both = first + earlier;
        law_earlier_source_wins(first, earlier);
        assert(second =~= earlier.push(last));
        assert((first + second).drop_last() =~= both);
        lemma_of_other_sessions_push(earlier, last, known);
        let others = of_other_sessions(earlier, known);
        assert(session_ids(both).contains(last.session_id@) <==> known.contains(last.session_id@)
            || session_ids(earlier).contains(last.session_id@)) by {
            lemma_session_ids_add(first, earlier, last.session_id@);
        }
        if !known.contains(last.session_id@) {
            lemma_of_other_sessions_ids(earlier, known, last.session_id@);
            assert(others.push(last).drop_last() =~= others);
            assert((first_of_each_session(first) + first_of_each_session(others)).push(last)
                =~= first_of_each_session(first) + first_of_each_session(others).push(last));
        }
    }
}

proof fn lemma_session_ids_add(a: Seq<LoadedEntry>, b: Seq<LoadedEntry>, id: Seq<char>)
    ensures
        session_ids(a + b).contains(id) <==> session_ids(a).contains(id) || session_ids(
            b,
        ).contains(id),
{
    if session_ids(a).contains(id) {
        let i = choose|i: int| 0 <= i < a.len() && (#[trigger] a[i]).session_id@ == id;
        assert((a + b)[i].session_id@ == id);
    }
    if session_ids(b).contains(id) {
        let i = choose|i: int| 0 <= i < b.len() && (#[trigger] b[i]).session_id@ == id;
        assert((a + b)[a.len() + i].session_id@ == id);
    }
    if session_ids(a + b).contains(id) {
        let i = choose|i: int|
            0 <= i < (a + b).len() && (#[trigger] (a + b)[i]).session_id@ == id;
        if i < a.len() {
            assert(a[i].session_id@ == id);
        } else {
            assert(b[i - a.len()].session_id@ == id);
        }
    }
}

/// The entries of `entries` whose sessions are among `known`.
pub open spec fn of_known_sessions(
    entries: Seq<LoadedEntry>,
    known: Set<Seq<char>>,
) -> Seq<LoadedEntry> {
    entries.filter(|entry: LoadedEntry| known.contains(entry.session_id@))
}

proof fn lemma_of_known_sessions_all(entries: Seq<LoadedEntry>, known: Set<Seq<char>>)
    requires
        forall|i: int|
            0 <= i < entries.len() ==> known.contains((#[trigger] entries[i]).session_id@),
    ensures
        of_known_sessions(entries, known) == entries,
    decreases entries.len(),
{
    reveal(Seq::filter);
    if entries.len() > 0 {
        let earlier = entries.drop_last();
        assert forall|i: int| 0 <= i < earlier.len() implies known.contains(
            (#[trigger] earlier[i]).session_id@,
        ) by {
            assert(earlier[i] == entries[i]);
        }
        lemma_of_known_sessions_all(earlier, known);
        assert(known.contains(entries[entries.len() - 1].session_id@));
        assert(entries =~= earlier.push(entries.last()));
    } else {
        assert(entries =~= Seq::empty());
    }
}

proof fn lemma_of_known_sessions_none(entries: Seq<LoadedEntry>, known: Set<Seq<char>>)
    requires
        forall|i: int|
            0 <= i < entries.len() ==> !known.contains((#[trigger] entries[i]).session_id@),
    ensures
        of_known_sessions(entries, known) == Seq::<LoadedEntry>::empty(),
    decreases entries.len(),
{
    reveal(Seq::filter);
    if entries.len() > 0 {
        let earlier = entries.drop_last();
        assert forall|i: int| 0 <= i < earlier.len() implies !known.contains(
            (#[trigger] earlier[i]).session_id@,
        ) by {
            assert(earlier[i] == entries[i]);
        }
        lemma_of_known_sessions_none(earlier, known);
        assert(!known.contains(entries[entries.len() - 1].session_id@));
    }
}

/// Of two loads in a row, what is kept of the sessions of the first is what the
/// first keeps alone, in the same order.
pub proof fn law_earlier_source_is_unchanged(first: Seq<LoadedEntry>, second: Seq<LoadedEntry>)
    ensures
        of_known_sessions(first_of_each_session(first + second), session_ids(first))
            == first_of_each_session(first),
{
    let known = session_ids(first);
    let kept = first_of_each_session(first);
    let others = of_other_sessions(second, known);
    let added = first_of_each_session(others);
    law_earlier_source_wins(first, second);
    law_first_entry_of_each_session_is_kept(first);
    law_first_entry_of_each_session_is_kept(others);
    assert forall|i: int| 0 <= i < kept.len() implies known.contains(
        (#[trigger] kept[i]).session_id@,
    ) by {
        assert(session_ids(kept).contains(kept[i].session_id@));
    }
    assert forall|i: int| 0 <= i < added.len() implies !known.contains(
        (#[trigger] added[i]).session_id@,
    ) by {
        let k = choose|k: int| #[trigger] opens_session(others, k) && others[k] == added[i];
        second.lemma_filter_pred(|entry: LoadedEntry| !known.contains(entry.session_id@), k);
    }
    lemma_of_known_sessions_all(kept, known);
    lemma_of_known_sessions_none(added, known);
    Seq::filter_distributes_over_add(
        kept,
        added,
        |entry: LoadedEntry| known.contains(entry.session_id@),
    );
    assert(kept + Seq::<LoadedEntry>::empty() =~= kept);
}

/// Entries of which no two have the same session are all kept.
pub proof fn law_distinct_sessions_are_all_kept(entries: Seq<LoadedEntry>)
    requires
        forall|i: int, j: int|
            0 <= i < j < entries.len() ==> (#[trigger] entries[i]).session_id@ != (
            #[trigger] entries[j]).session_id@,
    ensures
        first_of_each_session(entries) == entries,
    decreases entries.len(),
{
    if entries.len() > 0 {
        let earlier = entries.drop_last();
        assert forall|i: int, j: int| 0 <= i < j < earlier.len() implies (
        #[trigger] earlier[i]).session_id@ != (#[trigger] earlier[j]).session_id@ by {
            assert(entries[i] == earlier[i] && entries[j] == earlier[j]);
        }
        law_distinct_sessions_are_all_kept(earlier);
        if session_ids(earlier).contains(entries.last().session_id@) {
            let i = choose|i: int|
                0 <= i < earlier.len() && (#[trigger] earlier[i]).session_id@
                    == entries.last().session_id@;
            assert(entries[i].session_id@ == entries[entries.len() - 1].session_id@);
        }
        assert(entries =~= earlier.push(entries.last()));
    } else {
        assert(entries =~= Seq::empty());
    }
}

/// Drops each entry whose session occurs earlier, and keeps the order of the
/// rest.
pub fn keep_first_of_each_session(entries: Vec<LoadedEntry>) -> (kept: Vec<LoadedEntry>)
    ensures
        kept@ == first_of_each_session(entries@),
        forall|i: int, j: int|
            0 <= i < j < kept@.len() ==> (#[trigger] kept@[i]).session_id@ != (
            #[trigger] kept@[j]).session_id@,
        forall|i: int|
            0 <= i < entries@.len() ==> exists|k: int|
                0 <= k < kept@.len() && (#[trigger] kept@[k]).session_id@ == (
                #[trigger] entries@[i]).session_id@,
        forall|k: int|
            0 <= k < kept@.len() ==> exists|i: int| #[trigger]
                opens_session(entries@, i) && entries@[i] == #[trigger] kept@[k],
{
    let ghost all = entries@;
    let mut seen = StringHashSet::new();
    let mut kept: Vec<LoadedEntry> = Vec::new();
    assert(seen@ =~= session_ids(all.take(0)));
    for entry in it: entries.into_iter()
        invariant
            it.seq() == all,
            seen@ == session_ids(all.take(it.index())),
            kept@ == first_of_each_session(all.take(it.index())),
    {
        let ghost earlier = all.take(it.index());
        let ghost through = all.take(it.index() + 1);
        assert(through.drop_last() =~= earlier);
        assert(through.last() == entry);
        if seen.insert(entry.session_id.clone()) {
            kept.push(entry);
        }
        assert(seen@ =~= session_ids(through));
    }
    assert(all.take(all.len() as int) =~= all);
    proof {
        law_first_entry_of_each_session_is_kept(all);
        assert forall|i: int| 0 <= i < all.len() implies exists|k: int|
            0 <= k < kept@.len() && (#[trigger] kept@[k]).session_id@ == (
            #[trigger] all[i]).session_id@ by {
            assert(session_ids(all).contains(all[i].session_id@));
            assert(session_ids(kept@).contains(all[i].session_id@));
        }
    }
    kept
}

proof fn lemma_kept_in_order(entries: Seq<LoadedEntry>, k: int, l: int, i: int, j: int)
    requires
        0 <= k < l < first_of_each_session(entries).len(),
        opens_session(entries, i),
        opens_session(entries, j),
        first_of_each_session(entries)[k].session_id@ == entries[i].session_id@,
        first_of_each_session(entries)[l].session_id@ == entries[j].session_id@,
    ensures
        i < j,
    decreases entries.len(),
{
    let earlier = entries.drop_last();
    let kept_earlier = first_of_each_session(earlier);
    law_first_entry_of_each_session_is_kept(earlier);
    lemma_opening_in_earlier(entries, k, i);
    if l < kept_earlier.len() {
        lemma_opening_in_earlier(entries, l, j);
        lemma_kept_in_order(earlier, k, l, i, j);
    } else if j < earlier.len() {
        assert(earlier[j].session_id@ == entries.last().session_id@);
        assert(session_ids(earlier).contains(entries.last().session_id@));
    }
}

/// The first entry of a session that is kept of all but the last entry stands
/// among all but the last.
proof fn lemma_opening_in_earlier(entries: Seq<LoadedEntry>, k: int, i: int)
    requires
        entries.len() > 0,
        0 <= k < first_of_each_session(entries.drop_last()).len(),
        opens_session(entries, i),
        first_of_each_session(entries.drop_last())[k].session_id@ == entries[i].session_id@,
    ensures
        i < entries.len() - 1,
        opens_session(entries.drop_last(), i),
{
    let earlier = entries.drop_last();
    law_first_entry_of_each_session_is_kept(earlier);
    let m = choose|m: int| #[trigger]
        opens_session(earlier, m) && earlier[m] == first_of_each_session(earlier)[k];
    assert(entries[m].session_id@ == entries[i].session_id@);
    assert(i <= m);
    assert forall|n: int| 0 <= n < i implies (#[trigger] earlier[n]).session_id@
        != earlier[i].session_id@ by {
        assert(earlier[n] == entries[n]);
    }
}

/// What is kept of a session is its first entry, and entries that are kept stand
/// in the order that they had.
pub proof fn law_kept_entries_are_first_and_in_order(
    entries: Seq<LoadedEntry>,
    k: int,
    l: int,
    i: int,
    j: int,
)
    requires
        0 <= k < l < first_of_each_session(entries).len(),
        0 <= i < entries.len(),
        0 <= j < entries.len(),
        first_of_each_session(entries)[k].session_id@ == entries[i].session_id@,
        first_of_each_session(entries)[l].session_id@ == entries[j].session_id@,
        forall|m: int|
            0 <= m < i ==> (#[trigger] entries[m]).session_id@ != entries[i].session_id@,
        forall|m: int|
            0 <= m < j ==> (#[trigger] entries[m]).session_id@ != entries[j].session_id@,
    ensures
        first_of_each_session(entries)[k] == entries[i],
        first_of_each_session(entries)[l] == entries[j],
        i < j,
{
    assert(opens_session(entries, i) && opens_session(entries, j));
    lemma_kept_in_order(entries, k, l, i, j);
    law_session_is_kept_once(entries, i);
    law_session_is_kept_once(entries, j);
}

/// Each session that occurs is kept, once, and by its first entry: there is one
/// place at which an entry of that session is kept.
pub proof fn law_session_is_kept_once(entries: Seq<LoadedEntry>, i: int)
    requires
        0 <= i < entries.len(),
        forall|m: int|
            0 <= m < i ==> (#[trigger] entries[m]).session_id@ != entries[i].session_id@,
    ensures
        first_of_each_session(entries).contains(entries[i]),
        forall|k: int|
            0 <= k < first_of_each_session(entries).len() && (
            #[trigger] first_of_each_session(entries)[k]).session_id@ == entries[i].session_id@
                ==> first_of_each_session(entries)[k] == entries[i],
        forall|k: int, l: int|
            0 <= k < l < first_of_each_session(entries).len() ==> (
            #[trigger] first_of_each_session(entries)[k]).session_id@ != (
            #[trigger] first_of_each_session(entries)[l]).session_id@,
{
    let kept = first_of_each_session(entries);
    law_first_entry_of_each_session_is_kept(entries);
    assert(opens_session(entries, i));
    let n = choose|n: int| 0 <= n < kept.len() && kept[n] == entries[i];
    assert forall|k: int|
        0 <= k < kept.len() && (#[trigger] kept[k]).session_id@
            == entries[i].session_id@ implies kept[k] == entries[i] by {
        if k < n {
            assert(kept[k].session_id@ != kept[n].session_id@);
        } else if n < k {
            assert(kept[n].session_id@ != kept[k].session_id@);
        }
    }
}

/// Nothing is kept that was not there.
pub proof fn law_kept_entries_were_there(entries: Seq<LoadedEntry>, k: int)
    requires
        0 <= k < first_of_each_session(entries).len(),
    ensures
        entries.contains(first_of_each_session(entries)[k]),
{
    law_first_entry_of_each_session_is_kept(entries);
    let i = choose|i: int| #[trigger]
        opens_session(entries, i) && entries[i] == first_of_each_session(entries)[k];
    assert(entries.contains(entries[i]));
}

} // verus!
