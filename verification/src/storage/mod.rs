//! The entry store: its rules, whatever holds the entries.

pub mod file;
pub mod order;

use vstd::prelude::*;

use crate::error::SiganError;
use crate::models::{EntryFilter, EntryView, TimeEntry};
use crate::string_set::{StringSet, str_equal};
use crate::text::{chars_of, chars_prefix, is_prefix, str_starts_with};
use self::order::{sort_by_start, sort_entries, views};

verus! {

/// `i` is the first position in `s` of an entry with the id `id`.
pub open spec fn first_with_id(s: Seq<EntryView>, id: Seq<char>, i: int) -> bool {
    &&& 0 <= i < s.len()
    &&& s[i].id == id
    &&& forall|j: int| 0 <= j < i ==> (#[trigger] s[j]).id != id
}

/// Some entry of `s` has the id `id`.
pub open spec fn has_id(s: Seq<EntryView>, id: Seq<char>) -> bool {
    exists|i: int| 0 <= i < s.len() && (#[trigger] s[i]).id == id
}

/// The first position of an entry with the id `id`, when there is one.
pub open spec fn position_of_id(s: Seq<EntryView>, id: Seq<char>) -> int {
    choose|i: int| first_with_id(s, id, i)
}

/// A first position exists exactly when the id occurs, and it is unique.
pub proof fn lemma_first_with_id(s: Seq<EntryView>, id: Seq<char>)
    ensures
        has_id(s, id) ==> first_with_id(s, id, position_of_id(s, id)),
        forall|i: int| #[trigger] first_with_id(s, id, i) ==> i == position_of_id(s, id),
        !has_id(s, id) ==> forall|i: int| !#[trigger] first_with_id(s, id, i),
    decreases s.len(),
{
    if has_id(s, id) {
        let k = choose|k: int| 0 <= k < s.len() && (#[trigger] s[k]).id == id;
        lemma_least_with_id(s, id, k);
    }
    assert forall|i: int| #[trigger] first_with_id(s, id, i) implies i == position_of_id(s, id) by {
        let p = position_of_id(s, id);
        assert(first_with_id(s, id, p));
        if i < p {
        } else if p < i {
        }
    }
}

proof fn lemma_least_with_id(s: Seq<EntryView>, id: Seq<char>, k: int)
    requires
        0 <= k < s.len(),
        s[k].id == id,
    ensures
        exists|i: int| first_with_id(s, id, i),
    decreases k,
{
    if exists|j: int| 0 <= j < k && (#[trigger] s[j]).id == id {
        let j = choose|j: int| 0 <= j < k && (#[trigger] s[j]).id == id;
        lemma_least_with_id(s, id, j);
    } else {
        assert(first_with_id(s, id, k));
    }
}

/// The first entry that is still running.
pub open spec fn first_active(s: Seq<EntryView>) -> Option<EntryView>
    decreases s.len(),
{
    if s.len() == 0 {
        None
    } else if s[0].end_time is None {
        Some(s[0])
    } else {
        first_active(s.drop_first())
    }
}

/// The first running entry is running, and is one of the entries.
pub proof fn lemma_first_active(s: Seq<EntryView>)
    ensures
        first_active(s) matches Some(x) ==> x.end_time is None && s.contains(x),
        first_active(s) is None ==> forall|i: int| 0 <= i < s.len() ==> (#[trigger] s[i]).end_time is Some,
    decreases s.len(),
{
    if s.len() > 0 {
        lemma_first_active(s.drop_first());
        if s[0].end_time is Some {
            if let Some(x) = first_active(s.drop_first()) {
                let k = s.drop_first().index_of(x);
                assert(s[k + 1] == x);
            }
            assert forall|i: int| 0 <= i < s.len() && first_active(s) is None implies (#[trigger] s[i]).end_time is Some by {
                if i > 0 {
                    assert(s[i] == s.drop_first()[i - 1]);
                }
            }
        } else {
            assert(s[0] == s[0]);
        }
    }
}

/// The entries after `save(e)`: `e` takes the place of the first entry
/// with its id, or joins at the end; then all are put in order of start.
pub open spec fn saved(s: Seq<EntryView>, e: EntryView) -> Seq<EntryView> {
    if has_id(s, e.id) {
        sort_by_start(s.update(position_of_id(s, e.id), e))
    } else {
        sort_by_start(s.push(e))
    }
}

/// The entries after `delete_entry(id)`, and the entry it removed.
pub open spec fn deleted(s: Seq<EntryView>, id: Seq<char>) -> (Seq<EntryView>, Option<EntryView>) {
    if has_id(s, id) {
        let i = position_of_id(s, id);
        (sort_by_start(s.remove(i)), Some(s[i]))
    } else {
        (s, None)
    }
}

/// A character that, at the end of a project filter, makes it a prefix
/// match.
pub open spec fn is_prefix_marker(c: char) -> bool {
    c == '*' || c == '+' || c == '.'
}

/// A project filter matches a project: equal, or, when the filter ends
/// in `*`, `+` or `.`, the rest of the filter is a prefix of the project.
pub open spec fn project_matches_spec(filter_project: Seq<char>, project: Seq<char>) -> bool {
    ||| (filter_project.len() > 0 && is_prefix_marker(filter_project.last()) && is_prefix(
        filter_project.drop_last(),
        project,
    ))
    ||| filter_project == project
}

/// What a filter asks, as mathematical values.
pub struct FilterView {
    pub id_prefix: Option<Seq<char>>,
    pub projects: Set<Seq<char>>,
    pub tags: Set<Seq<char>>,
    pub start_date: Option<int>,
    pub end_date: Option<int>,
}

/// The view of a filter.
pub open spec fn filter_view(f: &EntryFilter) -> FilterView {
    FilterView {
        id_prefix: match f.id_prefix {
            Some(p) => Some(p@),
            None => None,
        },
        projects: f.projects@,
        tags: f.tags@,
        start_date: match f.start_date {
            Some(d) => Some(d as int),
            None => None,
        },
        end_date: match f.end_date {
            Some(d) => Some(d as int),
            None => None,
        },
    }
}

/// An entry passes a filter: its id starts with the id prefix; some
/// project filter matches its project (when any is given); it starts on
/// or after the start date and on or before the end date; it has one of
/// the tags (when any is given).
pub open spec fn matches_filter_spec(e: EntryView, f: FilterView) -> bool {
    &&& (f.id_prefix matches Some(p) ==> is_prefix(p, e.id))
    &&& (f.projects != Set::<Seq<char>>::empty() ==> exists|p: Seq<char>| #[trigger]
        f.projects.contains(p) && project_matches_spec(p, e.project))
    &&& (f.start_date matches Some(d) ==> e.start_time.date() >= d)
    &&& (f.end_date matches Some(d) ==> e.start_time.date() <= d)
    &&& (f.tags != Set::<Seq<char>>::empty() ==> exists|t: Seq<char>| #[trigger]
        f.tags.contains(t) && e.tags.contains(t))
}

/// The entries that pass a filter, in their order.
pub open spec fn filtered(s: Seq<EntryView>, f: FilterView) -> Seq<EntryView> {
    s.filter(|e: EntryView| matches_filter_spec(e, f))
}

/// A project filter matches a project: equal, or, when the filter ends in
/// `*`, `+` or `.`, the rest of the filter is a prefix of the project.
pub fn project_matches(filter_project: &str, project: &str) -> (r: bool)
    ensures
        r == project_matches_spec(filter_project@, project@),
{
    let f = chars_of(filter_project);
    let n = f.len();
    if n > 0 {
        let last = f[n - 1];
        if last == '*' || last == '+' || last == '.' {
            let p = chars_of(project);
            assert(f@.take(n - 1) =~= filter_project@.drop_last());
            if chars_prefix(&f, n - 1, &p) {
                return true;
            }
        }
    }
    str_equal(filter_project, project)
}

/// Some project of the filter matches `project`.
fn any_project_matches(projects: &StringSet, project: &str) -> (r: bool)
    ensures
        r == exists|p: Seq<char>| #[trigger]
            projects@.contains(p) && project_matches_spec(p, project@),
{
    let v = projects.to_vec();
    let mut i: usize = 0;
    while i < v.len()
        invariant
            i <= v@.len(),
            v@.map_values(|s: String| s@) == projects.elements(),
            forall|k: int| 0 <= k < i ==> !project_matches_spec(v@[k]@, project@),
        decreases v@.len() - i,
    {
        if project_matches(v[i].as_str(), project) {
            proof {
                assert(projects.elements()[i as int] == v@[i as int]@);
                assert(projects@.contains(v@[i as int]@));
            }
            return true;
        }
        i = i + 1;
    }
    proof {
        assert forall|p: Seq<char>| #[trigger] projects@.contains(p) implies !project_matches_spec(
            p,
            project@,
        ) by {
            let k = projects.elements().index_of(p);
            assert(v@[k]@ == p);
        }
    }
    false
}

/// Some tag of the filter is a tag of the entry.
fn any_tag_shared(filter_tags: &StringSet, tags: &StringSet) -> (r: bool)
    ensures
        r == exists|t: Seq<char>| #[trigger]
            filter_tags@.contains(t) && tags.elements().contains(t),
{
    let v = filter_tags.to_vec();
    let mut i: usize = 0;
    while i < v.len()
        invariant
            i <= v@.len(),
            v@.map_values(|s: String| s@) == filter_tags.elements(),
            forall|k: int| 0 <= k < i ==> !tags@.contains(v@[k]@),
        decreases v@.len() - i,
    {
        if tags.contains(v[i].as_str()) {
            proof {
                assert(filter_tags.elements()[i as int] == v@[i as int]@);
                assert(filter_tags@.contains(v@[i as int]@));
            }
            return true;
        }
        i = i + 1;
    }
    proof {
        assert forall|t: Seq<char>| #[trigger] filter_tags@.contains(t) implies !tags.elements().contains(
            t,
        ) by {
            let k = filter_tags.elements().index_of(t);
            assert(v@[k]@ == t);
        }
    }
    false
}

/// Whether an entry passes a filter.
pub fn matches_filter(entry: &TimeEntry, filter: &EntryFilter) -> (r: bool)
    ensures
        r == matches_filter_spec(entry@, filter_view(filter)),
{
    if let Some(prefix) = &filter.id_prefix {
        if !str_starts_with(entry.id.as_str(), prefix.as_str()) {
            return false;
        }
    }
    if !filter.projects.is_empty() && !any_project_matches(&filter.projects, entry.project.as_str()) {
        return false;
    }
    let date = entry.start_time.local_date();
    if let Some(start_date) = filter.start_date {
        if date < start_date {
            return false;
        }
    }
    if let Some(end_date) = filter.end_date {
        if date > end_date {
            return false;
        }
    }
    if !filter.tags.is_empty() && !any_tag_shared(&filter.tags, &entry.tags) {
        return false;
    }
    true
}

/// Clones of the entries, in order.
pub fn clone_entries(entries: &[TimeEntry]) -> (r: Vec<TimeEntry>)
    ensures
        views(r@) == views(entries@),
{
    let mut r: Vec<TimeEntry> = Vec::new();
    let mut i: usize = 0;
    while i < entries.len()
        invariant
            i <= entries@.len(),
            views(r@) =~= views(entries@).take(i as int),
        decreases entries@.len() - i,
    {
        r.push(entries[i].clone());
        assert(views(entries@).take(i + 1) =~= views(entries@).take(i as int).push(
            entries@[i as int]@,
        ));
        i = i + 1;
    }
    assert(views(entries@).take(i as int) =~= views(entries@));
    r
}

/// A store of time entries. Implementations hold the entries somewhere
/// (a file, memory) and keep them in order of start.
pub trait TimeEntryRepository {
    /// The entries the store holds, in order.
    spec fn stored(&self) -> Seq<EntryView>;

    /// The store never fails to read or write.
    spec fn reliable(&self) -> bool;

    /// All entries, in the order they are held.
    fn get_all(&mut self) -> (r: Result<Vec<TimeEntry>, SiganError>)
        ensures
            final(self).stored() == old(self).stored(),
            final(self).reliable() == old(self).reliable(),
            old(self).reliable() ==> r is Ok,
            r matches Err(e) ==> e is Storage,
            r matches Ok(v) ==> views(v@) == old(self).stored(),
    ;

    /// Replaces all entries with `entries`, put in order of start.
    fn save_all(&mut self, entries: &[TimeEntry]) -> (r: Result<(), SiganError>)
        ensures
            final(self).reliable() == old(self).reliable(),
            old(self).reliable() ==> r is Ok,
            r matches Err(e) ==> e is Storage,
            r is Ok ==> final(self).stored() == sort_by_start(views(entries@)),
    ;

    /// The first entry that is still running.
    fn get_active_entry(&mut self) -> (r: Result<Option<TimeEntry>, SiganError>)
        ensures
            final(self).stored() == old(self).stored(),
            final(self).reliable() == old(self).reliable(),
            old(self).reliable() ==> r is Ok,
            r matches Err(e) ==> e is Storage,
            r matches Ok(a) ==> match a {
                Some(e) => first_active(old(self).stored()) == Some(e@),
                None => first_active(old(self).stored()) is None,
            },
    {
        let entries = self.get_all()?;
        let mut i: usize = 0;
        assert(views(entries@).skip(0) =~= views(entries@));
        while i < entries.len()
            invariant
                i <= entries@.len(),
                self.stored() == old(self).stored(),
                self.reliable() == old(self).reliable(),
                views(entries@) == old(self).stored(),
                first_active(views(entries@)) == first_active(views(entries@).skip(i as int)),
            decreases entries@.len() - i,
        {
            assert(views(entries@).skip(i as int)[0] == entries@[i as int]@);
            if entries[i].end_time.is_none() {
                return Ok(Some(entries[i].clone()));
            }
            assert(views(entries@).skip(i as int).drop_first() =~= views(entries@).skip(i + 1));
            i = i + 1;
        }
        Ok(None)
    }

    /// Stores `entry`: it replaces the first entry with its id, or joins
    /// the others; then all are put in order of start.
    fn save(&mut self, entry: TimeEntry) -> (r: Result<(), SiganError>)
        ensures
            final(self).reliable() == old(self).reliable(),
            old(self).reliable() ==> r is Ok,
            r matches Err(e) ==> e is Storage,
            r is Ok ==> final(self).stored() == saved(old(self).stored(), entry@),
    {
        let mut entries = self.get_all()?;
        let ghost s = views(entries@);
        let mut i: usize = 0;
        while i < entries.len() && !(entries[i].id == entry.id)
            invariant
                i <= entries@.len(),
                views(entries@) == s,
                self.reliable() == old(self).reliable(),
                s == old(self).stored(),
                forall|j: int| 0 <= j < i ==> (#[trigger] s[j]).id != entry@.id,
            decreases entries@.len() - i,
        {
            assert(s[i as int] == entries@[i as int]@);
            i = i + 1;
        }
        proof {
            lemma_first_with_id(s, entry@.id);
        }
        if i < entries.len() {
            proof {
                assert(s[i as int] == entries@[i as int]@);
                assert(first_with_id(s, entry@.id, i as int));
            }
            let ghost ev = entry@;
            entries.set(i, entry);
            assert(views(entries@) =~= s.update(i as int, ev));
        } else {
            proof {
                assert(!has_id(s, entry@.id));
            }
            let ghost ev = entry@;
            entries.push(entry);
            assert(views(entries@) =~= s.push(ev));
        }
        self.save_all(entries.as_slice())
    }

    /// Removes the first entry with the id `id` and gives it back; `None`
    /// when no entry has it, and nothing is written then.
    fn delete_entry(&mut self, id: &str) -> (r: Result<Option<TimeEntry>, SiganError>)
        ensures
            final(self).reliable() == old(self).reliable(),
            old(self).reliable() ==> r is Ok,
            r matches Err(e) ==> e is Storage,
            r matches Ok(d) ==> {
                &&& final(self).stored() == deleted(old(self).stored(), id@).0
                &&& match d {
                    Some(e) => deleted(old(self).stored(), id@).1 == Some(e@),
                    None => deleted(old(self).stored(), id@).1 is None,
                }
            },
    {
        let mut entries = self.get_all()?;
        let ghost s = views(entries@);
        let mut i: usize = 0;
        while i < entries.len()
            invariant
                i <= entries@.len(),
                views(entries@) == s,
                self.reliable() == old(self).reliable(),
                s == old(self).stored(),
                self.stored() == old(self).stored(),
                forall|j: int| 0 <= j < i ==> (#[trigger] s[j]).id != id@,
            decreases entries@.len() - i,
        {
            assert(s[i as int] == entries@[i as int]@);
            if str_equal(entries[i].id.as_str(), id) {
                proof {
                    lemma_first_with_id(s, id@);
                    assert(first_with_id(s, id@, i as int));
                }
                let removed = entries.remove(i);
                assert(views(entries@) =~= s.remove(i as int));
                assert(removed@ == s[i as int]);
                self.save_all(entries.as_slice())?;
                return Ok(Some(removed));
            }
            i = i + 1;
        }
        proof {
            lemma_first_with_id(s, id@);
            assert(!has_id(s, id@));
        }
        Ok(None)
    }

    /// The entries that pass `filter`, in the order they are held.
    fn filter(&mut self, filter: &EntryFilter) -> (r: Result<Vec<TimeEntry>, SiganError>)
        ensures
            final(self).stored() == old(self).stored(),
            final(self).reliable() == old(self).reliable(),
            old(self).reliable() ==> r is Ok,
            r matches Err(e) ==> e is Storage,
            r matches Ok(v) ==> views(v@) == filtered(old(self).stored(), filter_view(filter)),
    {
        let entries = self.get_all()?;
        let ghost f = filter_view(filter);
        let mut out: Vec<TimeEntry> = Vec::new();
        let mut i: usize = 0;
        while i < entries.len()
            invariant
                i <= entries@.len(),
                self.stored() == old(self).stored(),
                self.reliable() == old(self).reliable(),
                views(entries@) == old(self).stored(),
                f == filter_view(filter),
                views(out@) == filtered(views(entries@).take(i as int), f),
            decreases entries@.len() - i,
        {
            let ghost t = views(entries@).take(i + 1);
            assert(t.drop_last() =~= views(entries@).take(i as int));
            if matches_filter(&entries[i], filter) {
                out.push(entries[i].clone());
            }
            proof {
                reveal_with_fuel(Seq::filter, 1);
                assert(views(out@) =~= filtered(t, f));
            }
            i = i + 1;
        }
        assert(views(entries@).take(i as int) =~= views(entries@));
        Ok(out)
    }
}

/// A store that holds its entries in memory and never fails.
pub struct MemoryRepository {
    entries: Vec<TimeEntry>,
}

impl MemoryRepository {
    /// A store with the given entries, kept as they are.
    pub fn new(entries: Vec<TimeEntry>) -> (r: MemoryRepository)
        ensures
            r.stored() == views(entries@),
            r.reliable(),
    {
        MemoryRepository { entries }
    }

    /// The entries held, in order.
    pub fn entries(&self) -> (r: Vec<TimeEntry>)
        ensures
            views(r@) == self.stored(),
    {
        clone_entries(self.entries.as_slice())
    }
}

impl TimeEntryRepository for MemoryRepository {
    closed spec fn stored(&self) -> Seq<EntryView> {
        views(self.entries@)
    }

    closed spec fn reliable(&self) -> bool {
        true
    }

    fn get_all(&mut self) -> (r: Result<Vec<TimeEntry>, SiganError>) {
        Ok(clone_entries(self.entries.as_slice()))
    }

    fn save_all(&mut self, entries: &[TimeEntry]) -> (r: Result<(), SiganError>) {
        self.entries = sort_entries(entries);
        Ok(())
    }
}

} // verus!
