//! Laws of the entry store, the tracking service and the output: what
//! holds across operations, for every store and every text.

use vstd::prelude::*;

use crate::config::{AutoTagRule, auto_tags_from, regex_compiles, regex_finds, regex_word};
use crate::models::{EntryView, stopped};
use crate::output::layout::{
    AnsiColor, after_escape, color_code, colorized, is_ascii_letter, italicized, visible_width_of,
};
use crate::service::{id_prefix_filter, listing_filter, with_active_stopped};
use crate::storage::{
    FilterView, deleted, filtered, first_active, first_with_id, has_id, lemma_first_active,
    lemma_first_with_id, matches_filter_spec, position_of_id, saved,
};
use crate::storage::order::{
    insert_by_start, lemma_insert_members, lemma_sort_by_start, sort_by_start, sorted_by_start,
};
use crate::text::is_prefix;
use crate::time::LocalDateTime;

verus! {

/// No two entries share an id.
pub open spec fn unique_ids(s: Seq<EntryView>) -> bool {
    forall|i: int, j: int| 0 <= i < j < s.len() ==> (#[trigger] s[i]).id != (#[trigger] s[j]).id
}

/// At most one entry is running.
pub open spec fn at_most_one_running(s: Seq<EntryView>) -> bool {
    forall|i: int, j: int|
        0 <= i < s.len() && 0 <= j < s.len() && (#[trigger] s[i]).end_time is None && (
        #[trigger] s[j]).end_time is None ==> i == j
}

/// Sorting keeps exactly the entries there were.
pub proof fn lemma_sort_contains(s: Seq<EntryView>)
    ensures
        forall|x: EntryView| #[trigger] sort_by_start(s).contains(x) <==> s.contains(x),
{
    broadcast use vstd::seq_lib::group_to_multiset_ensures;

    lemma_sort_by_start(s);
    assert forall|x: EntryView| #[trigger] sort_by_start(s).contains(x) <==> s.contains(x) by {
        assert(sort_by_start(s).to_multiset().count(x) == s.to_multiset().count(x));
    }
}

/// After `save(e)` the store holds `e`; everything else it holds was there
/// before; and every entry with another id that was there is still there.
pub proof fn law_save_keeps_entries(s: Seq<EntryView>, e: EntryView)
    ensures
        saved(s, e).contains(e),
        forall|x: EntryView| #[trigger] saved(s, e).contains(x) ==> x == e || s.contains(x),
        forall|x: EntryView| s.contains(x) && x.id != e.id ==> #[trigger] saved(s, e).contains(x),
        sorted_by_start(saved(s, e)),
{
    lemma_first_with_id(s, e.id);
    let t = if has_id(s, e.id) {
        s.update(position_of_id(s, e.id), e)
    } else {
        s.push(e)
    };
    lemma_sort_contains(t);
    lemma_sort_by_start(t);
    if has_id(s, e.id) {
        let p = position_of_id(s, e.id);
        assert(t[p] == e);
        assert forall|x: EntryView| #[trigger] t.contains(x) implies x == e || s.contains(x) by {
            let k = t.index_of(x);
            if k != p {
                assert(s[k] == x);
            }
        }
        assert forall|x: EntryView| s.contains(x) && x.id != e.id implies #[trigger] t.contains(x) by {
            let k = s.index_of(x);
            assert(k != p);
            assert(t[k] == x);
        }
    } else {
        assert(t[s.len() as int] == e);
        assert forall|x: EntryView| #[trigger] t.contains(x) implies x == e || s.contains(x) by {
            let k = t.index_of(x);
            if k < s.len() {
                assert(s[k] == x);
            }
        }
        assert forall|x: EntryView| s.contains(x) && x.id != e.id implies #[trigger] t.contains(x) by {
            let k = s.index_of(x);
            assert(t[k] == x);
        }
    }
}

/// What a read gives back of a write: after `save(e)`, looking entries up
/// by a prefix of `e`'s id finds `e`.
pub proof fn law_saved_entry_is_found(s: Seq<EntryView>, e: EntryView, prefix: Seq<char>)
    requires
        is_prefix(prefix, e.id),
    ensures
        filtered(saved(s, e), id_prefix_filter(prefix)).contains(e),
{
    law_save_keeps_entries(s, e);
    let q = saved(s, e);
    let k = q.index_of(e);
    let pred = |x: EntryView| matches_filter_spec(x, id_prefix_filter(prefix));
    assert(pred(q[k]));
    q.lemma_filter_contains(pred, k);
}

/// Ids that the entries after `save(e)` carry were there before or are
/// `e`'s.
proof fn lemma_saved_ids(s: Seq<EntryView>, e: EntryView, id: Seq<char>)
    requires
        has_id(saved(s, e), id),
    ensures
        id == e.id || has_id(s, id),
{
    law_save_keeps_entries(s, e);
    let q = saved(s, e);
    let k = choose|k: int| 0 <= k < q.len() && (#[trigger] q[k]).id == id;
    assert(q.contains(q[k]));
    if q[k] != e {
        let m = s.index_of(q[k]);
        assert(s[m].id == id);
    }
}

/// When exactly one entry runs, it is the first running entry.
proof fn lemma_only_running_is_first(q: Seq<EntryView>, e: EntryView)
    requires
        q.contains(e),
        e.end_time is None,
        forall|x: EntryView| #[trigger] q.contains(x) && x != e ==> x.end_time is Some,
    ensures
        first_active(q) == Some(e),
    decreases q.len(),
{
    if q[0] != e {
        assert(q.contains(q[0]));
        let k = q.index_of(e);
        assert(q.drop_first()[k - 1] == e);
        assert forall|x: EntryView| #[trigger] q.drop_first().contains(x) && x != e implies x.end_time is Some by {
            let m = q.drop_first().index_of(x);
            assert(q[m + 1] == x);
            assert(q.contains(x));
        }
        lemma_only_running_is_first(q.drop_first(), e);
    }
}

/// Starting an entry stops the running one: when at most one entry runs
/// and ids are unique, after the running entry (if any) is stopped at `t`
/// and the new running entry `e` with a new id is saved, `e` is the only
/// running entry, and the entry that ran is kept, stopped at `t`.
pub proof fn law_start_stops_running_entry(s: Seq<EntryView>, t: LocalDateTime, e: EntryView)
    requires
        unique_ids(s),
        at_most_one_running(s),
        e.end_time is None,
        !has_id(s, e.id),
    ensures
        first_active(saved(with_active_stopped(s, t), e)) == Some(e),
        forall|x: EntryView| #[trigger]
            saved(with_active_stopped(s, t), e).contains(x) && x != e ==> x.end_time is Some,
        first_active(s) matches Some(a) ==> saved(with_active_stopped(s, t), e).contains(
            stopped(a, t),
        ),
{
    let x = with_active_stopped(s, t);
    lemma_first_active(s);
    // Nothing runs after the running entry is stopped.
    assert forall|y: EntryView| #[trigger] x.contains(y) implies y.end_time is Some by {
        match first_active(s) {
            Some(a) => {
                law_stop_ends_running(s, stopped(a, t));
            },
            None => {
                let k = s.index_of(y);
                assert(s[k] == y);
            },
        }
    }
    // The new id is not among them.
    assert(!has_id(x, e.id)) by {
        if has_id(x, e.id) {
            match first_active(s) {
                Some(a) => {
                    lemma_saved_ids(s, stopped(a, t), e.id);
                    let k = s.index_of(a);
                    assert(s[k].id == a.id);
                },
                None => {},
            }
        }
    }
    law_save_keeps_entries(x, e);
    let q = saved(x, e);
    assert forall|y: EntryView| #[trigger] q.contains(y) && y != e implies y.end_time is Some by {
        assert(x.contains(y));
    }
    lemma_only_running_is_first(q, e);
    if let Some(a) = first_active(s) {
        law_save_keeps_entries(s, stopped(a, t));
        assert(stopped(a, t).id != e.id) by {
            let k = s.index_of(a);
            assert(s[k].id == a.id);
        }
    }
}

/// Stopping the running entry: when at most one entry runs and ids are
/// unique, saving the running entry with an end time (as `stop_tracking`
/// does) leaves no entry running.
pub proof fn law_stop_ends_running(s: Seq<EntryView>, e: EntryView)
    requires
        unique_ids(s),
        at_most_one_running(s),
        first_active(s) matches Some(a) && a.id == e.id,
        e.end_time is Some,
    ensures
        forall|y: EntryView| #[trigger] saved(s, e).contains(y) ==> y.end_time is Some,
{
    lemma_first_active(s);
    let a = first_active(s).unwrap();
    let ka = s.index_of(a);
    assert(has_id(s, a.id)) by {
        assert(s[ka].id == a.id);
    }
    lemma_first_with_id(s, a.id);
    let p = position_of_id(s, a.id);
    assert(p == ka) by {
        if p < ka {
            assert(s[p].id == s[ka].id);
        } else if ka < p {
            assert(s[ka].id == s[p].id);
        }
    }
    let u = s.update(p, e);
    lemma_sort_contains(u);
    assert forall|y: EntryView| #[trigger] saved(s, e).contains(y) implies y.end_time is Some by {
        assert(u.contains(y));
        let k = u.index_of(y);
        if k != p {
            assert(s[k] == y);
            if y.end_time is None {
                assert(s[k].end_time is None && s[ka].end_time is None);
            }
        }
    }
}

/// Deleting by an id that no two entries share removes the entry with
/// that id, gives it back, and leaves every other entry in place.
pub proof fn law_delete_removes_entry(s: Seq<EntryView>, id: Seq<char>)
    requires
        unique_ids(s),
        has_id(s, id),
    ensures
        deleted(s, id).1 matches Some(x) && x.id == id && s.contains(x),
        !has_id(deleted(s, id).0, id),
        deleted(s, id).0.len() == s.len() - 1,
        forall|y: EntryView| s.contains(y) && y.id != id ==> #[trigger] deleted(s, id).0.contains(y),
        sorted_by_start(deleted(s, id).0),
{
    broadcast use vstd::seq_lib::group_to_multiset_ensures;

    lemma_first_with_id(s, id);
    let p = position_of_id(s, id);
    let r = s.remove(p);
    lemma_sort_contains(r);
    lemma_sort_by_start(r);
    assert(s.contains(s[p]));
    assert(!has_id(sort_by_start(r), id)) by {
        if has_id(sort_by_start(r), id) {
            let q = sort_by_start(r);
            let k = choose|k: int| 0 <= k < q.len() && (#[trigger] q[k]).id == id;
            assert(q.contains(q[k]));
            let m = r.index_of(q[k]);
            if m < p {
                assert(s[m].id == id);
            } else {
                assert(s[m + 1].id == id);
            }
        }
    }
    assert forall|y: EntryView| s.contains(y) && y.id != id implies #[trigger] sort_by_start(
        r,
    ).contains(y) by {
        let k = s.index_of(y);
        if k < p {
            assert(r[k] == y);
        } else {
            assert(k != p);
            assert(r[k - 1] == y);
        }
    }
}

/// The filter that asks nothing.
pub open spec fn pass_all_filter() -> FilterView {
    FilterView {
        id_prefix: None,
        projects: Set::empty(),
        tags: Set::empty(),
        start_date: None,
        end_date: None,
    }
}

/// A filter that asks nothing lets every entry through, in order.
pub proof fn law_empty_filter_keeps_all(s: Seq<EntryView>)
    ensures
        filtered(s, pass_all_filter()) == s,
    decreases s.len(),
{
    reveal_with_fuel(Seq::filter, 1);
    if s.len() > 0 {
        law_empty_filter_keeps_all(s.drop_last());
        assert(s.drop_last().push(s.last()) =~= s);
    } else {
        assert(filtered(s, pass_all_filter()) =~= s);
    }
}


/// Text without escape characters shows all its characters, and what
/// follows it counts as it would alone.
proof fn lemma_plain_width(v: Seq<char>, t: Seq<char>)
    requires
        forall|i: int| 0 <= i < v.len() ==> v[i] != '\x1b',
    ensures
        visible_width_of(v + t) == v.len() + visible_width_of(t),
    decreases v.len(),
{
    if v.len() == 0 {
        assert(v + t =~= t);
    } else {
        assert((v + t)[0] == v[0]);
        assert((v + t).drop_first() =~= v.drop_first() + t);
        lemma_plain_width(v.drop_first(), t);
    }
}

/// The body of an escape sequence without letters, ended by `m`, is
/// skipped whole.
proof fn lemma_skip_sequence_body(p: Seq<char>, rest: Seq<char>)
    requires
        forall|i: int| 0 <= i < p.len() ==> !is_ascii_letter(p[i]),
    ensures
        after_escape(p + seq!['m'] + rest) == rest,
    decreases p.len(),
{
    let s = p + seq!['m'] + rest;
    if p.len() == 0 {
        assert(s[0] == 'm');
        assert(s.drop_first() =~= rest);
    } else {
        assert(s[0] == p[0]);
        assert(s.drop_first() =~= p.drop_first() + seq!['m'] + rest);
        lemma_skip_sequence_body(p.drop_first(), rest);
    }
}

/// The color codes hold no letter.
proof fn lemma_code_has_no_letter(color: AnsiColor)
    ensures
        forall|i: int| 0 <= i < color_code(color).len() ==> !is_ascii_letter(
            #[trigger] color_code(color)[i],
        ),
{
    reveal_strlit("90");
    reveal_strlit("37");
    reveal_strlit("31");
    reveal_strlit("32");
    reveal_strlit("33");
    reveal_strlit("34");
    reveal_strlit("35");
    reveal_strlit("36");
}

/// Coloring text, or setting it in italics, does not change how wide it
/// shows on a terminal, when the text holds no escape character.
pub proof fn law_styling_keeps_visible_width(value: Seq<char>, color: AnsiColor)
    requires
        forall|i: int| 0 <= i < value.len() ==> value[i] != '\x1b',
    ensures
        visible_width_of(colorized(value, color)) == value.len(),
        visible_width_of(italicized(value, color)) == value.len(),
        visible_width_of(value) == value.len(),
{
    reveal_strlit("\x1b[");
    reveal_strlit("\x1b[3;");
    reveal_strlit("m");
    reveal_strlit("\x1b[0m");
    let reset = "\x1b[0m"@;
    let empty = Seq::<char>::empty();
    lemma_plain_width(value, empty);
    assert(value + empty =~= value);
    // The reset sequence shows nothing.
    assert(reset.skip(2) =~= seq!['0'] + seq!['m'] + empty);
    lemma_skip_sequence_body(seq!['0'], empty);
    assert(visible_width_of(reset) == 0);
    lemma_plain_width(value, reset);
    lemma_code_has_no_letter(color);
    if value.len() > 0 {
        let code = color_code(color);
        let c = colorized(value, color);
        assert(c.skip(2) =~= code + seq!['m'] + (value + reset));
        lemma_skip_sequence_body(code, value + reset);
        let it = italicized(value, color);
        let body = seq!['3', ';'] + code;
        assert forall|i: int| 0 <= i < body.len() implies !is_ascii_letter(#[trigger] body[i]) by {
            if i >= 2 {
                assert(body[i] == code[i - 2]);
            }
        }
        assert(it.skip(2) =~= body + seq!['m'] + (value + reset));
        lemma_skip_sequence_body(body, value + reset);
    }
}


/// With no period and no dates, a listing shows every entry that started
/// today, and the running entry when it started on an earlier day: it
/// runs from the running entry's date through today.
pub proof fn law_default_listing_shows_today_and_running(s: Seq<EntryView>, today: int)
    requires
        first_active(s) matches Some(a) ==> a.start_time.date() <= today,
    ensures
        forall|i: int|
            0 <= i < s.len() && s[i].start_time.date() == today ==> filtered(
                s,
                listing_filter(pass_all_filter(), None, None, None, today, first_active(s)),
            ).contains(#[trigger] s[i]),
        first_active(s) matches Some(a) ==> filtered(
            s,
            listing_filter(pass_all_filter(), None, None, None, today, first_active(s)),
        ).contains(a),
{
    let f = listing_filter(pass_all_filter(), None, None, None, today, first_active(s));
    let pred = |e: EntryView| matches_filter_spec(e, f);
    lemma_first_active(s);
    assert forall|i: int|
        0 <= i < s.len() && s[i].start_time.date() == today implies filtered(s, f).contains(
            #[trigger] s[i],
        ) by {
        s.lemma_filter_contains(pred, i);
    }
    if let Some(a) = first_active(s) {
        let k = s.index_of(a);
        s.lemma_filter_contains(pred, k);
    }
}


/// Inserting an entry whose id is new keeps ids unique.
proof fn lemma_insert_keeps_unique(t: Seq<EntryView>, e: EntryView)
    requires
        unique_ids(t),
        !has_id(t, e.id),
    ensures
        unique_ids(insert_by_start(t, e)),
    decreases t.len(),
{
    if t.len() > 0 && e.start_time.before(t.last().start_time) {
        let d = t.drop_last();
        assert(!has_id(d, e.id)) by {
            if has_id(d, e.id) {
                let k = choose|k: int| 0 <= k < d.len() && (#[trigger] d[k]).id == e.id;
                assert(t[k].id == e.id);
            }
        }
        lemma_insert_keeps_unique(d, e);
        lemma_insert_members(d, e);
        let r = insert_by_start(d, e);
        let last = t.last();
        assert forall|x: EntryView| #[trigger] r.contains(x) implies x.id != last.id by {
            if x == e {
                assert(t[t.len() - 1] == last);
            } else {
                let k = choose|k: int| 0 <= k < d.len() && d[k] == x;
                assert(t[k] == x);
                assert(t[t.len() - 1] == last);
            }
        }
        let q = r.push(last);
        assert forall|i: int, j: int| 0 <= i < j < q.len() implies (#[trigger] q[i]).id != (
        #[trigger] q[j]).id by {
            if j == r.len() {
                assert(r.contains(r[i]));
            } else {
                assert(q[i] == r[i] && q[j] == r[j]);
            }
        }
    } else if t.len() > 0 {
        let q = t.push(e);
        assert forall|i: int, j: int| 0 <= i < j < q.len() implies (#[trigger] q[i]).id != (
        #[trigger] q[j]).id by {
            if j == t.len() {
                assert(q[i] == t[i]);
            } else {
                assert(q[i] == t[i] && q[j] == t[j]);
            }
        }
    }
}

/// Putting entries in order of start keeps ids unique.
proof fn lemma_sort_keeps_unique(s: Seq<EntryView>)
    requires
        unique_ids(s),
    ensures
        unique_ids(sort_by_start(s)),
    decreases s.len(),
{
    if s.len() > 0 {
        let d = s.drop_last();
        assert(unique_ids(d)) by {
            assert forall|i: int, j: int| 0 <= i < j < d.len() implies (#[trigger] d[i]).id != (
            #[trigger] d[j]).id by {
                assert(d[i] == s[i] && d[j] == s[j]);
            }
        }
        lemma_sort_keeps_unique(d);
        lemma_sort_contains(d);
        let r = sort_by_start(d);
        assert(!has_id(r, s.last().id)) by {
            if has_id(r, s.last().id) {
                let k = choose|k: int| 0 <= k < r.len() && (#[trigger] r[k]).id == s.last().id;
                assert(r.contains(r[k]));
                let m = d.index_of(r[k]);
                assert(s[m].id == s[s.len() - 1].id);
            }
        }
        lemma_insert_keeps_unique(r, s.last());
    }
}

/// Saving keeps ids unique: the saved entry takes the place of the entry
/// with its id, or its id is new.
pub proof fn law_save_keeps_ids_unique(s: Seq<EntryView>, e: EntryView)
    requires
        unique_ids(s),
    ensures
        unique_ids(saved(s, e)),
{
    lemma_first_with_id(s, e.id);
    if has_id(s, e.id) {
        let p = position_of_id(s, e.id);
        let t = s.update(p, e);
        assert forall|i: int, j: int| 0 <= i < j < t.len() implies (#[trigger] t[i]).id != (
        #[trigger] t[j]).id by {
            if i == p {
                assert(s[p].id == e.id && s[j].id != s[p].id);
            } else if j == p {
                assert(s[p].id == e.id && s[i].id != s[p].id);
            } else {
                assert(t[i] == s[i] && t[j] == s[j]);
            }
        }
        lemma_sort_keeps_unique(t);
    } else {
        let t = s.push(e);
        assert forall|i: int, j: int| 0 <= i < j < t.len() implies (#[trigger] t[i]).id != (
        #[trigger] t[j]).id by {
            if j == s.len() {
                assert(t[i] == s[i]);
            } else {
                assert(t[i] == s[i] && t[j] == s[j]);
            }
        }
        lemma_sort_keeps_unique(t);
    }
}

/// Deleting keeps ids unique.
pub proof fn law_delete_keeps_ids_unique(s: Seq<EntryView>, id: Seq<char>)
    requires
        unique_ids(s),
    ensures
        unique_ids(deleted(s, id).0),
{
    lemma_first_with_id(s, id);
    if has_id(s, id) {
        let p = position_of_id(s, id);
        let t = s.remove(p);
        assert forall|i: int, j: int| 0 <= i < j < t.len() implies (#[trigger] t[i]).id != (
        #[trigger] t[j]).id by {
            let a = if i < p { i } else { i + 1 };
            let b = if j < p { j } else { j + 1 };
            assert(t[i] == s[a] && t[j] == s[b]);
        }
        lemma_sort_keeps_unique(t);
    }
}

/// Entries already in order of start stay as they are when sorted.
proof fn lemma_sort_of_sorted(s: Seq<EntryView>)
    requires
        sorted_by_start(s),
    ensures
        sort_by_start(s) == s,
    decreases s.len(),
{
    if s.len() > 0 {
        let d = s.drop_last();
        assert(sorted_by_start(d)) by {
            assert forall|i: int, j: int| 0 <= i < j < d.len() implies !(#[trigger] d[j]).start_time.before(
                (#[trigger] d[i]).start_time,
            ) by {
                assert(d[i] == s[i] && d[j] == s[j]);
            }
        }
        lemma_sort_of_sorted(d);
        if d.len() > 0 {
            assert(!s[s.len() - 1].start_time.before(s[s.len() - 2].start_time));
        }
        assert(d.push(s.last()) =~= s);
    }
}

/// Saving the same entry twice stores what saving it once stores, when
/// ids are unique.
pub proof fn law_save_is_idempotent(s: Seq<EntryView>, e: EntryView)
    requires
        unique_ids(s),
    ensures
        saved(saved(s, e), e) == saved(s, e),
{
    law_save_keeps_entries(s, e);
    law_save_keeps_ids_unique(s, e);
    let q = saved(s, e);
    let k = q.index_of(e);
    assert(q[k] == e);
    assert(has_id(q, e.id));
    lemma_first_with_id(q, e.id);
    assert(first_with_id(q, e.id, k)) by {
        assert forall|j: int| 0 <= j < k implies (#[trigger] q[j]).id != e.id by {
            assert(q[j].id != q[k].id);
        }
    }
    assert(q.update(k, e) =~= q);
    lemma_sort_of_sorted(q);
}


/// With no period and no dates, a listing shows only stored entries that
/// start no later than today, and no earlier than today unless the running
/// entry started on an earlier day and the entry starts no earlier than
/// that day. When nothing runs, only entries that start today are shown.
pub proof fn law_default_listing_range(s: Seq<EntryView>, f: FilterView, today: int)
    ensures
        forall|x: EntryView| #[trigger]
            filtered(s, listing_filter(f, None, None, None, today, first_active(s))).contains(x)
                ==> {
                &&& s.contains(x)
                &&& x.start_time.date() <= today
                &&& (x.start_time.date() >= today || (first_active(s) matches Some(a)
                    && a.start_time.date() <= x.start_time.date()))
            },
{
    let g = listing_filter(f, None, None, None, today, first_active(s));
    let pred = |e: EntryView| matches_filter_spec(e, g);
    assert forall|x: EntryView| #[trigger] filtered(s, g).contains(x) implies {
        &&& s.contains(x)
        &&& x.start_time.date() <= today
        &&& (x.start_time.date() >= today || (first_active(s) matches Some(a)
            && a.start_time.date() <= x.start_time.date()))
    } by {
        s.lemma_filter_contains_rev(pred, x);
        let k = s.filter(pred).index_of(x);
        s.lemma_filter_pred(pred, k);
        assert(pred(x));
    }
}

/// Every tag of a rule, as a set.
pub open spec fn rule_tags(rule: AutoTagRule) -> Set<Seq<char>> {
    rule.tags@.map_values(|s: String| s@).to_set()
}

/// The rule is a regular expression that `regex` accepts.
pub open spec fn rule_usable(rule: AutoTagRule) -> bool {
    rule.match_type@ == regex_word() && regex_compiles(rule.pattern@)
}

/// Auto-tagging succeeds exactly when every rule is a usable regular
/// expression; then the tags hold the tags it started with and every tag
/// of every rule whose pattern matches the project, and nothing else.
pub proof fn law_auto_tags_collect_every_match(
    rules: Seq<AutoTagRule>,
    project: Seq<char>,
    acc: Set<Seq<char>>,
)
    ensures
        auto_tags_from(rules, project, acc) is Ok <==> forall|i: int|
            0 <= i < rules.len() ==> rule_usable(#[trigger] rules[i]),
        auto_tags_from(rules, project, acc) matches Ok(r) ==> {
            &&& acc.subset_of(r)
            &&& forall|i: int|
                0 <= i < rules.len() && regex_finds((#[trigger] rules[i]).pattern@, project)
                    ==> rule_tags(rules[i]).subset_of(r)
            &&& forall|t: Seq<char>| #[trigger]
                r.contains(t) ==> acc.contains(t) || exists|i: int|
                    0 <= i < rules.len() && regex_finds((#[trigger] rules[i]).pattern@, project)
                        && rule_tags(rules[i]).contains(t)
        },
    decreases rules.len(),
{
    if rules.len() > 0 {
        let rule = rules[0];
        let rest = rules.drop_first();
        let next = if regex_finds(rule.pattern@, project) {
            acc.union(rule_tags(rule))
        } else {
            acc
        };
        law_auto_tags_collect_every_match(rest, project, next);
        assert forall|i: int| 0 < i < rules.len() implies #[trigger] rules[i] == rest[i - 1] by {}
        if !rule_usable(rule) {
            assert(!(forall|i: int| 0 <= i < rules.len() ==> rule_usable(#[trigger] rules[i])));
        } else {
            assert((forall|i: int| 0 <= i < rules.len() ==> rule_usable(#[trigger] rules[i])) <==> (
            forall|i: int| 0 <= i < rest.len() ==> rule_usable(#[trigger] rest[i]))) by {
                if forall|i: int| 0 <= i < rest.len() ==> rule_usable(#[trigger] rest[i]) {
                    assert forall|i: int| 0 <= i < rules.len() implies rule_usable(
                        #[trigger] rules[i],
                    ) by {
                        if i > 0 {
                            assert(rules[i] == rest[i - 1]);
                        }
                    }
                }
                if forall|i: int| 0 <= i < rules.len() ==> rule_usable(#[trigger] rules[i]) {
                    assert forall|i: int| 0 <= i < rest.len() implies rule_usable(
                        #[trigger] rest[i],
                    ) by {
                        assert(rules[i + 1] == rest[i]);
                    }
                }
            }
            if let Ok(r) = auto_tags_from(rules, project, acc) {
                assert forall|i: int|
                    0 <= i < rules.len() && regex_finds((#[trigger] rules[i]).pattern@, project)
                        implies rule_tags(rules[i]).subset_of(r) by {
                    if i > 0 {
                        assert(rules[i] == rest[i - 1]);
                    }
                }
                assert forall|t: Seq<char>| #[trigger] r.contains(t) implies acc.contains(t)
                    || exists|i: int|
                    0 <= i < rules.len() && regex_finds((#[trigger] rules[i]).pattern@, project)
                        && rule_tags(rules[i]).contains(t) by {
                    if !next.contains(t) {
                        let j = choose|j: int|
                            0 <= j < rest.len() && regex_finds((#[trigger] rest[j]).pattern@, project)
                                && rule_tags(rest[j]).contains(t);
                        assert(rules[j + 1] == rest[j]);
                    } else if !acc.contains(t) {
                        assert(rules[0] == rule);
                    }
                }
            }
        }
    }
}

} // verus!
