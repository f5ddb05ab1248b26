//! Keeping entries in order of their start.

use vstd::prelude::*;

use crate::models::{EntryView, TimeEntry};

verus! {

/// The views of a sequence of entries.
pub open spec fn views(v: Seq<TimeEntry>) -> Seq<EntryView> {
    v.map_values(|e: TimeEntry| e@)
}

/// `e` put into `s` after every entry that does not start after it.
pub open spec fn insert_by_start(s: Seq<EntryView>, e: EntryView) -> Seq<EntryView>
    decreases s.len(),
{
    if s.len() == 0 {
        seq![e]
    } else if e.start_time.before(s.last().start_time) {
        insert_by_start(s.drop_last(), e).push(s.last())
    } else {
        s.push(e)
    }
}

/// `s` in order of start time; entries that start at the same instant
/// keep their order (a stable sort, as `sort_by_key` is).
pub open spec fn sort_by_start(s: Seq<EntryView>) -> Seq<EntryView>
    decreases s.len(),
{
    if s.len() == 0 {
        s
    } else {
        insert_by_start(sort_by_start(s.drop_last()), s.last())
    }
}

/// No entry of `s` starts before an entry in front of it.
pub open spec fn sorted_by_start(s: Seq<EntryView>) -> bool {
    forall|i: int, j: int|
        0 <= i < j < s.len() ==> !(#[trigger] s[j]).start_time.before((#[trigger] s[i]).start_time)
}

/// Inserting at the position found by scanning from the back.
proof fn lemma_insert_at(s: Seq<EntryView>, e: EntryView, j: int)
    requires
        0 <= j <= s.len(),
        forall|k: int| j <= k < s.len() ==> e.start_time.before((#[trigger] s[k]).start_time),
        j == 0 || !e.start_time.before(s[j - 1].start_time),
    ensures
        insert_by_start(s, e) == s.insert(j, e),
    decreases s.len(),
{
    if s.len() == 0 {
        assert(s.insert(j, e) =~= seq![e]);
    } else if j == s.len() {
        assert(s.insert(j, e) =~= s.push(e));
    } else {
        assert(e.start_time.before(s.last().start_time));
        lemma_insert_at(s.drop_last(), e, j);
        assert(s.drop_last().insert(j, e).push(s.last()) =~= s.insert(j, e));
    }
}

/// Inserting into an ordered sequence keeps it ordered.
pub proof fn lemma_insert_sorted(s: Seq<EntryView>, e: EntryView)
    requires
        sorted_by_start(s),
    ensures
        sorted_by_start(insert_by_start(s, e)),
        insert_by_start(s, e).to_multiset() == s.to_multiset().insert(e),
    decreases s.len(),
{
    broadcast use vstd::seq_lib::group_to_multiset_ensures;

    if s.len() == 0 {
        assert(seq![e] =~= Seq::<EntryView>::empty().push(e));
    } else if e.start_time.before(s.last().start_time) {
        let t = s.drop_last();
        assert(sorted_by_start(t));
        lemma_insert_sorted(t, e);
        let r = insert_by_start(t, e);
        lemma_insert_members(t, e);
        assert forall|i: int, j: int| 0 <= i < j < r.push(s.last()).len() implies !(#[trigger] r.push(
            s.last(),
        )[j]).start_time.before((#[trigger] r.push(s.last())[i]).start_time) by {
            if j == r.len() {
                let x = r[i];
                assert(r.contains(x));
                if x == e {
                } else {
                    let k = choose|k: int| 0 <= k < t.len() && t[k] == x;
                    assert(s[k] == x);
                    assert(s[s.len() - 1] == s.last());
                }
            }
        }
        assert(s =~= t.push(s.last()));
        assert(t.push(s.last()).to_multiset() == t.to_multiset().insert(s.last()));
        assert(r.push(s.last()).to_multiset() == r.to_multiset().insert(s.last()));
        assert(r.push(s.last()).to_multiset() =~= s.to_multiset().insert(e));
    } else {
        assert forall|i: int, j: int| 0 <= i < j < s.push(e).len() implies !(#[trigger] s.push(
            e,
        )[j]).start_time.before((#[trigger] s.push(e)[i]).start_time) by {
            if j == s.len() && i < s.len() - 1 {
                assert(!s[s.len() - 1].start_time.before(s[i].start_time));
            }
        }
    }
}

/// Everything in `insert_by_start(s, e)` is `e` or comes from `s`.
pub proof fn lemma_insert_members(s: Seq<EntryView>, e: EntryView)
    ensures
        forall|x: EntryView| #[trigger]
            insert_by_start(s, e).contains(x) ==> x == e || exists|k: int|
                0 <= k < s.len() && s[k] == x,
    decreases s.len(),
{
    if s.len() == 0 {
    } else if e.start_time.before(s.last().start_time) {
        lemma_insert_members(s.drop_last(), e);
        let r = insert_by_start(s.drop_last(), e);
        assert forall|x: EntryView| #[trigger]
            r.push(s.last()).contains(x) implies x == e || exists|k: int|
                0 <= k < s.len() && s[k] == x by {
            let m = r.push(s.last()).index_of(x);
            if m == r.len() {
                assert(s[s.len() - 1] == x);
            } else {
                assert(r.contains(x));
                if x != e {
                    let k = choose|k: int| 0 <= k < s.drop_last().len() && s.drop_last()[k] == x;
                    assert(s[k] == x);
                }
            }
        }
    } else {
        assert forall|x: EntryView| #[trigger]
            s.push(e).contains(x) implies x == e || exists|k: int| 0 <= k < s.len() && s[k] == x by {
            let m = s.push(e).index_of(x);
            if m < s.len() {
                assert(s[m] == x);
            }
        }
    }
}

/// Sorting puts the entries in order and keeps each of them, as often as
/// it occurs.
pub proof fn lemma_sort_by_start(s: Seq<EntryView>)
    ensures
        sorted_by_start(sort_by_start(s)),
        sort_by_start(s).to_multiset() == s.to_multiset(),
        sort_by_start(s).len() == s.len(),
    decreases s.len(),
{
    broadcast use vstd::seq_lib::group_to_multiset_ensures;

    if s.len() > 0 {
        lemma_sort_by_start(s.drop_last());
        lemma_insert_sorted(sort_by_start(s.drop_last()), s.last());
        assert(s =~= s.drop_last().push(s.last()));
    }
    let r = sort_by_start(s);
    assert(r.len() == r.to_multiset().len());
    assert(s.len() == s.to_multiset().len());
}

/// The entries in order of start, as `sort_by_key(|e| e.start_time)`
/// leaves them.
pub fn sort_entries(entries: &[TimeEntry]) -> (r: Vec<TimeEntry>)
    ensures
        views(r@) == sort_by_start(views(entries@)),
{
    let mut res: Vec<TimeEntry> = Vec::new();
    let mut i: usize = 0;
    while i < entries.len()
        invariant
            i <= entries@.len(),
            views(res@) == sort_by_start(views(entries@).take(i as int)),
        decreases entries@.len() - i,
    {
        let e = entries[i].clone();
        let ghost before = views(res@);
        let mut j: usize = res.len();
        while j > 0 && e.start_time.is_before(&res[j - 1].start_time)
            invariant
                j <= res@.len(),
                views(res@) == before,
                forall|k: int|
                    j <= k < res@.len() ==> e.start_time.before((#[trigger] res@[k]).start_time),
            decreases j,
        {
            j = j - 1;
        }
        proof {
            assert forall|k: int| j <= k < before.len() implies e@.start_time.before(
                (#[trigger] before[k]).start_time,
            ) by {
                assert(before[k] == res@[k]@);
            }
            if j > 0 {
                assert(before[j - 1] == res@[j - 1]@);
            }
            lemma_insert_at(before, e@, j as int);
        }
        let ghost ev = e@;
        res.insert(j, e);
        proof {
            assert(views(res@) =~= before.insert(j as int, ev));
            let t = views(entries@).take(i + 1);
            assert(t.drop_last() =~= views(entries@).take(i as int));
            assert(t.last() == entries@[i as int]@);
        }
        i = i + 1;
    }
    assert(views(entries@).take(i as int) =~= views(entries@));
    res
}

} // verus!
