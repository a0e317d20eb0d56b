//! The entry store: an in-memory table of entries keyed by `id`, with the
//! operations the host's commands and the sync reconciler need.  The store
//! holds each id at most once and only well-formed entries; readers sort on
//! the way out, so the internal order never shows.

use vstd::prelude::*;
use vstd::multiset::Multiset;

use crate::models::{clamp_ms, rfc3339_millis, wf_entry, EntryModel, TimeEntry};
use crate::models::{clamp_ts, parse_rfc3339};

verus! {

/// The index of the first entry with the given id, if any.
pub open spec fn find_id(s: Seq<EntryModel>, id: Seq<char>) -> Option<int>
    decreases s.len(),
{
    if s.len() == 0 {
        None
    } else if s[0].id == id {
        Some(0)
    } else {
        match find_id(s.drop_first(), id) {
            Some(j) => Some(j + 1),
            None => None,
        }
    }
}

/// What `find_id` finds: the first index whose entry carries the id, or
/// nothing when no entry does.
pub proof fn lemma_find_id(s: Seq<EntryModel>, id: Seq<char>)
    ensures
        match find_id(s, id) {
            Some(j) => 0 <= j < s.len() && s[j].id == id && (forall|k: int|
                0 <= k < j ==> s[k].id != id),
            None => forall|k: int| 0 <= k < s.len() ==> s[k].id != id,
        },
    decreases s.len(),
{
    if s.len() != 0 && s[0].id != id {
        let t = s.drop_first();
        lemma_find_id(t, id);
        assert(forall|k: int| 0 <= k < t.len() ==> t[k] == s[k + 1]);
        match find_id(t, id) {
            Some(j) => {
                assert forall|k: int| 0 <= k < j + 1 implies s[k].id != id by {
                    if k > 0 {
                        assert(t[k - 1].id != id);
                    }
                }
            },
            None => {
                assert forall|k: int| 0 <= k < s.len() implies s[k].id != id by {
                    if k > 0 {
                        assert(t[k - 1].id != id);
                    }
                }
            },
        }
    }
}

/// The converse: an entry with the id at `i`, and none before it, is what
/// `find_id` returns.
pub proof fn lemma_find_id_at(s: Seq<EntryModel>, id: Seq<char>, i: int)
    requires
        0 <= i < s.len(),
        s[i].id == id,
        forall|k: int| 0 <= k < i ==> s[k].id != id,
    ensures
        find_id(s, id) == Some(i),
    decreases s.len(),
{
    if i != 0 {
        assert(forall|k: int|
            0 <= k < s.drop_first().len() ==> s.drop_first()[k] == s[k + 1]);
        lemma_find_id_at(s.drop_first(), id, i - 1);
    }
}

/// Upsert by id: replace the entry that carries `m.id`, or append `m` when
/// none does.
pub open spec fn upsert(s: Seq<EntryModel>, m: EntryModel) -> Seq<EntryModel> {
    match find_id(s, m.id) {
        Some(j) => s.update(j, m),
        None => s.push(m),
    }
}

/// The entry with its sync bookkeeping set: `synced` true and `sync_id`
/// stored, every other field as it was.
pub open spec fn mark_entry(m: EntryModel, sid: Option<Seq<char>>) -> EntryModel {
    EntryModel { synced: true, sync_id: sid, ..m }
}

/// Mark by id: set the sync bookkeeping of the entry that carries `id`, or
/// leave the table as it is when none does.
pub open spec fn mark_one(
    s: Seq<EntryModel>,
    id: Seq<char>,
    sid: Option<Seq<char>>,
) -> Seq<EntryModel> {
    match find_id(s, id) {
        Some(j) => s.update(j, mark_entry(s[j], sid)),
        None => s,
    }
}

/// No id occurs twice.
pub open spec fn unique_ids(s: Seq<EntryModel>) -> bool {
    forall|i: int, j: int| 0 <= i < j < s.len() ==> s[i].id != s[j].id
}

/// The sort key a reader orders by: the activity instant for the full
/// listing, the latest-mutation instant for the unsynced listing.
pub open spec fn sort_key(m: EntryModel, by_ts: bool) -> int {
    if by_ts {
        m.timestamp
    } else {
        m.last_modified
    }
}

/// Sorted by the chosen key, newest first.
pub open spec fn sorted_desc(s: Seq<EntryModel>, by_ts: bool) -> bool {
    forall|i: int, j: int|
        0 <= i <= j < s.len() ==> sort_key(s[i], by_ts) >= sort_key(s[j], by_ts)
}

/// The subsequence of entries the remote has not acknowledged, in table
/// order.
pub open spec fn unsynced_of(s: Seq<EntryModel>) -> Seq<EntryModel>
    decreases s.len(),
{
    if s.len() == 0 {
        Seq::empty()
    } else {
        let rest = unsynced_of(s.drop_last());
        if !s.last().synced {
            rest.push(s.last())
        } else {
            rest
        }
    }
}

/// The reason a command is refused.
#[derive(Clone, Copy, Debug, PartialEq, Eq, Structural)]
pub enum EntryError {
    /// The timestamp handed in is not a valid RFC 3339 string.
    InvalidTimestamp,
}

/// The entry store.
pub struct Store {
    entries: Vec<TimeEntry>,
}

impl View for Store {
    type V = Seq<EntryModel>;

    closed spec fn view(&self) -> Seq<EntryModel> {
        self.entries.deep_view()
    }
}

impl Store {
    /// Every entry well formed, every id held at most once.
    pub open spec fn wf(&self) -> bool {
        &&& unique_ids(self@)
        &&& forall|i: int| 0 <= i < self@.len() ==> wf_entry(self@[i])
    }

    /// An empty store.
    pub fn new() -> (s: Store)
        ensures
            s@ == Seq::<EntryModel>::empty(),
            s.wf(),
    {
        let s = Store { entries: Vec::new() };
        proof {
            assert(s@ =~= Seq::<EntryModel>::empty());
        }
        s
    }

    /// The index of the entry carrying `id`, as `find_id` sees it.
    fn find_index(&self, id: &String) -> (r: Option<usize>)
        ensures
            match r {
                Some(i) => 0 <= i < self@.len() && find_id(self@, id@) == Some(i as int),
                None => find_id(self@, id@) is None,
            },
    {
        let mut i: usize = 0;
        while i < self.entries.len()
            invariant
                i <= self.entries.len(),
                self@.len() == self.entries.len(),
                forall|k: int| 0 <= k < i ==> self@[k].id != id@,
            decreases self.entries.len() - i,
        {
            if self.entries[i].id == *id {
                proof {
                    lemma_find_id_at(self@, id@, i as int);
                }
                return Some(i);
            }
            i += 1;
        }
        proof {
            lemma_find_id(self@, id@);
        }
        None
    }

    /// Idempotent upsert by id: overwrites all fields, the sync
    /// bookkeeping included — the caller must already have computed them.
    pub fn save_time_entry(&mut self, entry: &TimeEntry)
        requires
            old(self).wf(),
            wf_entry(entry@),
        ensures
            final(self)@ == upsert(old(self)@, entry@),
            final(self).wf(),
    {
        let ghost s0 = self@;
        match self.find_index(&entry.id) {
            Some(i) => {
                proof {
                    lemma_find_id(s0, entry@.id);
                }
                self.entries[i] = entry.clone();
                proof {
                    assert(self@ =~= s0.update(i as int, entry@));
                }
            },
            None => {
                proof {
                    lemma_find_id(s0, entry@.id);
                }
                self.entries.push(entry.clone());
                proof {
                    assert(self@ =~= s0.push(entry@));
                }
            },
        }
    }

    /// All entries, newest activity first.  Entries with equal timestamps
    /// keep the table's own order, which is fixed within one store.
    pub fn get_all_time_entries(&self) -> (r: Vec<TimeEntry>)
        ensures
            r.deep_view().to_multiset() == self@.to_multiset(),
            sorted_desc(r.deep_view(), true),
    {
        let mut out: Vec<TimeEntry> = Vec::new();
        proof {
            lemma_to_multiset_empty(out.deep_view());
            lemma_to_multiset_empty(self@.take(0));
        }
        let mut i: usize = 0;
        while i < self.entries.len()
            invariant
                i <= self.entries.len(),
                self@.len() == self.entries.len(),
                sorted_desc(out.deep_view(), true),
                out.deep_view().to_multiset() == self@.take(i as int).to_multiset(),
            decreases self.entries.len() - i,
        {
            let ghost prefix = self@.take(i as int);
            let e = self.entries[i].clone();
            insert_sorted(&mut out, e, true);
            proof {
                assert(self@.take(i + 1) =~= prefix.push(self@[i as int]));
                vstd::seq_lib::to_multiset_build(prefix, self@[i as int]);
            }
            i += 1;
        }
        proof {
            assert(self@.take(self@.len() as int) =~= self@);
        }
        out
    }

    /// The entry carrying `id`, or nothing; a missing id is no error.
    pub fn get_time_entry_by_id(&self, id: &String) -> (r: Option<TimeEntry>)
        ensures
            match find_id(self@, id@) {
                Some(j) => r matches Some(e) && e@ == self@[j],
                None => r is None,
            },
    {
        match self.find_index(id) {
            Some(i) => Some(self.entries[i].clone()),
            None => None,
        }
    }

    /// The entries the remote has not acknowledged, latest local mutation
    /// first.
    pub fn get_unsynced_entries(&self) -> (r: Vec<TimeEntry>)
        ensures
            r.deep_view().to_multiset() == unsynced_of(self@).to_multiset(),
            sorted_desc(r.deep_view(), false),
            forall|k: int| 0 <= k < r.deep_view().len() ==> !r.deep_view()[k].synced,
    {
        let mut out: Vec<TimeEntry> = Vec::new();
        proof {
            lemma_to_multiset_empty(out.deep_view());
            lemma_to_multiset_empty(unsynced_of(self@.take(0)));
        }
        let mut i: usize = 0;
        while i < self.entries.len()
            invariant
                i <= self.entries.len(),
                self@.len() == self.entries.len(),
                sorted_desc(out.deep_view(), false),
                out.deep_view().to_multiset() == unsynced_of(self@.take(i as int)).to_multiset(),
                forall|k: int| 0 <= k < out.deep_view().len() ==> !out.deep_view()[k].synced,
            decreases self.entries.len() - i,
        {
            let ghost prefix = self@.take(i as int);
            proof {
                assert(self@.take(i + 1).drop_last() =~= prefix);
                assert(self@.take(i + 1).last() == self@[i as int]);
            }
            if !self.entries[i].synced {
                let e = self.entries[i].clone();
                let ghost out0 = out.deep_view();
                insert_sorted(&mut out, e, false);
                proof {
                    vstd::seq_lib::to_multiset_build(unsynced_of(prefix), self@[i as int]);
                    assert(unsynced_of(self@.take(i + 1))
                        == unsynced_of(prefix).push(self@[i as int]));
                }
            } else {
                proof {
                    assert(unsynced_of(self@.take(i + 1)) == unsynced_of(prefix));
                }
            }
            i += 1;
        }
        proof {
            assert(self@.take(self@.len() as int) =~= self@);
        }
        out
    }

    /// Sets `synced` and stores the remote's `sync_id` on the entry
    /// carrying `id`; no other field changes, and an unknown id changes
    /// nothing.  Returns whether the entry existed.
    pub fn mark_entry_synced(&mut self, id: &String, sync_id: Option<String>) -> (r: bool)
        requires
            old(self).wf(),
        ensures
            r == (find_id(old(self)@, id@) is Some),
            final(self)@ == mark_one(old(self)@, id@, sync_id.deep_view()),
            final(self).wf(),
    {
        let ghost s0 = self@;
        match self.find_index(id) {
            Some(i) => {
                proof {
                    lemma_find_id(s0, id@);
                }
                let mut e = self.entries[i].clone();
                e.synced = true;
                e.sync_id = sync_id;
                self.entries[i] = e;
                proof {
                    assert(self@ =~= s0.update(i as int, mark_entry(s0[i as int], sync_id.deep_view())));
                }
                true
            },
            None => false,
        }
    }

    /// Removes the entry carrying `id`; returns whether it existed.
    pub fn delete_time_entry(&mut self, id: &String) -> (r: bool)
        requires
            old(self).wf(),
        ensures
            r == (find_id(old(self)@, id@) is Some),
            final(self)@ == (match find_id(old(self)@, id@) {
                Some(j) => old(self)@.remove(j),
                None => old(self)@,
            }),
            final(self).wf(),
    {
        let ghost s0 = self@;
        match self.find_index(id) {
            Some(i) => {
                self.entries.remove(i);
                proof {
                    assert(self@ =~= s0.remove(i as int));
                }
                true
            },
            None => false,
        }
    }

    /// Full-row update by id, every field taken verbatim; returns whether
    /// the entry existed.  The caller is responsible for having set
    /// `last_modified` and `synced` already.
    pub fn update_time_entry(&mut self, entry: &TimeEntry) -> (r: bool)
        requires
            old(self).wf(),
            wf_entry(entry@),
        ensures
            r == (find_id(old(self)@, entry@.id) is Some),
            final(self)@ == (match find_id(old(self)@, entry@.id) {
                Some(j) => old(self)@.update(j, entry@),
                None => old(self)@,
            }),
            final(self).wf(),
    {
        let ghost s0 = self@;
        match self.find_index(&entry.id) {
            Some(i) => {
                proof {
                    lemma_find_id(s0, entry@.id);
                }
                self.entries[i] = entry.clone();
                proof {
                    assert(self@ =~= s0.update(i as int, entry@));
                }
                true
            },
            None => false,
        }
    }

    /// A user edit: replaces the stored entry's mutable fields, stamps
    /// `last_modified` with `now_ms`, and resets the sync bookkeeping — a
    /// local edit always invalidates a stale sync.  Refused when the
    /// timestamp string does not parse; the store is then untouched.
    pub fn update_entry_fields(
        &mut self,
        id: &String,
        activity: String,
        elapsed: i64,
        description: Option<String>,
        tags: Vec<String>,
        timestamp: &String,
        now_ms: i64,
    ) -> (r: Result<bool, EntryError>)
        requires
            old(self).wf(),
            activity@.len() > 0,
            elapsed >= 0,
        ensures
            r matches Err(_) ==> {
                &&& rfc3339_millis(timestamp@) is None
                &&& final(self)@ == old(self)@
            },
            r matches Ok(b) ==> rfc3339_millis(timestamp@) matches Some(ms) && {
                let m = (EntryModel {
                    id: id@,
                    activity: activity@,
                    elapsed: elapsed as int,
                    description: description.deep_view(),
                    tags: tags.deep_view(),
                    timestamp: clamp_ms(ms),
                    last_modified: clamp_ms(now_ms as int),
                    synced: false,
                    sync_id: None,
                    user_id: None,
                });
                &&& b == (find_id(old(self)@, id@) is Some)
                &&& final(self)@ == (match find_id(old(self)@, id@) {
                    Some(j) => old(self)@.update(j, m),
                    None => old(self)@,
                })
            },
            r == Ok::<bool, EntryError>(true) ==> (find_id(final(self)@, id@) matches Some(j)
                && !final(self)@[j].synced),
            final(self).wf(),
    {
        let ghost s0 = self@;
        match parse_rfc3339(timestamp.as_str()) {
            None => Err(EntryError::InvalidTimestamp),
            Some(ts) => {
                let e = TimeEntry {
                    id: id.clone(),
                    activity,
                    elapsed,
                    description,
                    tags,
                    timestamp: clamp_ts(ts),
                    last_modified: clamp_ts(now_ms),
                    synced: false,
                    sync_id: None,
                    user_id: None,
                };
                let b = self.update_time_entry(&e);
                proof {
                    if b {
                        let j = find_id(s0, id@).unwrap();
                        lemma_find_id(s0, id@);
                        assert(forall|k: int| 0 <= k < j ==> self@[k].id != id@);
                        lemma_find_id_at(self@, id@, j);
                    }
                }
                Ok(b)
            },
        }
    }
}

/// A sequence with no entries has an empty multiset.
proof fn lemma_to_multiset_empty(s: Seq<EntryModel>)
    requires
        s.len() == 0,
    ensures
        s.to_multiset() == Multiset::<EntryModel>::empty(),
{
    broadcast use vstd::seq_lib::group_to_multiset_ensures;
    broadcast use vstd::multiset::group_multiset_axioms;

    assert forall|m: EntryModel| s.to_multiset().count(m) == Multiset::<EntryModel>::empty().count(
        m,
    ) by {
        assert(!s.contains(m));
    }
    assert(s.to_multiset() =~= Multiset::<EntryModel>::empty());
}

/// The sort key of an entry, read off the value.
fn entry_key(e: &TimeEntry, by_ts: bool) -> (r: i64)
    ensures
        r as int == sort_key(e@, by_ts),
{
    if by_ts {
        e.timestamp
    } else {
        e.last_modified
    }
}

/// Inserts `e` into a descending-sorted vector, keeping it sorted; an
/// entry with an equal key goes after the ones already there.
fn insert_sorted(out: &mut Vec<TimeEntry>, e: TimeEntry, by_ts: bool)
    requires
        sorted_desc(old(out).deep_view(), by_ts),
    ensures
        sorted_desc(final(out).deep_view(), by_ts),
        final(out).deep_view().to_multiset() == old(out).deep_view().to_multiset().insert(e@),
        final(out).deep_view().len() == old(out).deep_view().len() + 1,
        forall|k: int|
            0 <= k < final(out).deep_view().len() ==> (final(out).deep_view()[k] == e@
                || old(out).deep_view().contains(final(out).deep_view()[k])),
{
    let key = entry_key(&e, by_ts);
    let mut i: usize = 0;
    while i < out.len() && entry_key(&out[i], by_ts) >= key
        invariant
            i <= out.len(),
            out.deep_view().len() == out.len(),
            forall|k: int| 0 <= k < i ==> sort_key(out.deep_view()[k], by_ts) >= key as int,
        decreases out.len() - i,
    {
        i += 1;
    }
    let ghost s0 = out.deep_view();
    let ghost pos = i as int;
    out.insert(i, e);
    proof {
        assert(out.deep_view() =~= s0.insert(pos, e@));
        vstd::seq_lib::to_multiset_insert(s0, pos, e@);
        assert forall|a: int, b: int|
            0 <= a <= b < out.deep_view().len() implies sort_key(out.deep_view()[a], by_ts)
            >= sort_key(out.deep_view()[b], by_ts) by {
            let dv = out.deep_view();
            if a < pos && b > pos {
                assert(dv[a] == s0[a]);
                assert(dv[b] == s0[b - 1]);
                if pos < s0.len() {
                    assert(sort_key(s0[pos], by_ts) < key as int);
                }
            } else if b == pos {
                if a < pos {
                    assert(dv[a] == s0[a]);
                }
            } else if a == pos {
                if b > pos {
                    assert(dv[b] == s0[b - 1]);
                    assert(sort_key(s0[pos], by_ts) < key as int);
                    assert(sort_key(s0[b - 1], by_ts) <= sort_key(s0[pos], by_ts));
                }
            }
        }
        assert forall|k: int|
            0 <= k < out.deep_view().len() implies (out.deep_view()[k] == e@
            || s0.contains(out.deep_view()[k])) by {
            if k < pos {
                assert(out.deep_view()[k] == s0[k]);
            } else if k > pos {
                assert(out.deep_view()[k] == s0[k - 1]);
            }
        }
    }
}

/// Marking an id touches `synced` and `sync_id` at most: every entry
/// keeps its place and every other field, and an id the table does not
/// hold leaves it untouched entirely.
pub proof fn lemma_mark_changes_only_sync_fields(
    s: Seq<EntryModel>,
    id: Seq<char>,
    sid: Option<Seq<char>>,
)
    ensures
        mark_one(s, id, sid).len() == s.len(),
        forall|k: int|
            0 <= k < s.len() ==> {
                let m2 = #[trigger] mark_one(s, id, sid)[k];
                &&& m2.id == s[k].id
                &&& m2.activity == s[k].activity
                &&& m2.elapsed == s[k].elapsed
                &&& m2.description == s[k].description
                &&& m2.tags == s[k].tags
                &&& m2.timestamp == s[k].timestamp
                &&& m2.last_modified == s[k].last_modified
                &&& m2.user_id == s[k].user_id
            },
        find_id(s, id) is None ==> mark_one(s, id, sid) == s,
{
    lemma_find_id(s, id);
}

/// Saving an entry and then looking its id up returns that entry, field
/// for field: the store's round trip.
pub proof fn lemma_save_then_get(s: Seq<EntryModel>, m: EntryModel)
    ensures
        find_id(upsert(s, m), m.id) matches Some(j) && upsert(s, m)[j] == m,
{
    lemma_find_id(s, m.id);
    match find_id(s, m.id) {
        Some(j) => {
            let s2 = s.update(j, m);
            assert(forall|k: int| 0 <= k < j ==> s2[k].id != m.id);
            lemma_find_id_at(s2, m.id, j);
        },
        None => {
            let s2 = s.push(m);
            assert(forall|k: int| 0 <= k < s.len() ==> s2[k].id != m.id);
            lemma_find_id_at(s2, m.id, s.len() as int);
        },
    }
}

} // verus!
