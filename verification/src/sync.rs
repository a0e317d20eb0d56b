//! The sync reconciler: one discrete pass between the store and the remote
//! authority.  The host performs the transport (read the unsynced batch
//! with `Store::get_unsynced_entries`, post it, decode the answer) and
//! hands the outcome to `sync_with_server`, which applies it: every
//! authoritative entry is upserted first, then every confirmed id is
//! marked synced.  A failed transport leaves the store untouched.

use vstd::prelude::*;

use crate::models::{wf_entry, EntryModel, TimeEntry};
use crate::store::{mark_one, upsert, Store};

verus! {

/// What the remote authority answers one sync pass with: the ids of the
/// locally-sent entries it accepted, and the entries that are now
/// authoritative (these may include entries this store has never seen).
pub struct SyncResponse {
    pub synced_ids: Vec<String>,
    pub entries: Vec<TimeEntry>,
}

/// Why a sync pass failed.  Either way the pass was aborted and the store
/// left as it was; retrying is the caller's business.
#[derive(Debug, Clone)]
pub enum SyncError {
    /// The transport could not complete the call to the remote.
    Network(String),
    /// The remote's response could not be decoded.
    Decode(String),
}

/// The table after the first `n` authoritative entries, first to last,
/// have been upserted.
pub open spec fn apply_upto(s: Seq<EntryModel>, es: Seq<EntryModel>, n: int) -> Seq<EntryModel>
    decreases n,
{
    if n <= 0 {
        s
    } else {
        upsert(apply_upto(s, es, n - 1), es[n - 1])
    }
}

/// The table after every authoritative entry has been upserted.
pub open spec fn apply_entries(s: Seq<EntryModel>, es: Seq<EntryModel>) -> Seq<EntryModel> {
    apply_upto(s, es, es.len() as int)
}

/// The table after the first `n` confirmed ids, first to last, have been
/// marked synced.  The response carries no per-id sync id, so none is
/// stored.
pub open spec fn mark_upto(s: Seq<EntryModel>, ids: Seq<Seq<char>>, n: int) -> Seq<EntryModel>
    decreases n,
{
    if n <= 0 {
        s
    } else {
        mark_one(mark_upto(s, ids, n - 1), ids[n - 1], None)
    }
}

/// The table after every confirmed id has been marked synced.
pub open spec fn mark_ids(s: Seq<EntryModel>, ids: Seq<Seq<char>>) -> Seq<EntryModel> {
    mark_upto(s, ids, ids.len() as int)
}

/// The table after the first `n` id/sync-id pairs have been marked.
pub open spec fn mark_pairs_upto(
    s: Seq<EntryModel>,
    ids: Seq<Seq<char>>,
    sids: Seq<Option<Seq<char>>>,
    n: int,
) -> Seq<EntryModel>
    decreases n,
{
    if n <= 0 {
        s
    } else {
        mark_one(mark_pairs_upto(s, ids, sids, n - 1), ids[n - 1], sids[n - 1])
    }
}

/// How many id/sync-id pairs the batch-mark command uses: the two lists
/// are paired by position and the extra tail of the longer one is ignored.
pub open spec fn paired_len(ids: Seq<Seq<char>>, sids: Seq<Option<Seq<char>>>) -> int {
    if ids.len() <= sids.len() {
        ids.len() as int
    } else {
        sids.len() as int
    }
}

/// Marks each id in `ids` synced, storing the sync id at the same
/// position of `sync_ids`; the lists are paired by position, stopping at
/// the shorter one.  Ids the store does not hold are skipped.
pub fn mark_entries_synced(store: &mut Store, ids: &Vec<String>, sync_ids: &Vec<Option<String>>)
    requires
        old(store).wf(),
    ensures
        final(store)@ == mark_pairs_upto(
            old(store)@,
            ids.deep_view(),
            sync_ids.deep_view(),
            paired_len(ids.deep_view(), sync_ids.deep_view()),
        ),
        final(store).wf(),
{
    let n: usize = if ids.len() <= sync_ids.len() {
        ids.len()
    } else {
        sync_ids.len()
    };
    let mut i: usize = 0;
    while i < n
        invariant
            i <= n,
            n as int == paired_len(ids.deep_view(), sync_ids.deep_view()),
            n <= ids.len() && n <= sync_ids.len(),
            store.wf(),
            store@ == mark_pairs_upto(
                old(store)@,
                ids.deep_view(),
                sync_ids.deep_view(),
                i as int,
            ),
        decreases n - i,
    {
        let sid: Option<String> = match &sync_ids[i] {
            Some(s) => Some(s.clone()),
            None => None,
        };
        proof {
            assert(ids.deep_view()[i as int] == ids@[i as int]@);
            assert(sid.deep_view() == sync_ids.deep_view()[i as int]);
        }
        store.mark_entry_synced(&ids[i], sid);
        i += 1;
    }
}

/// Applies one successful response: upserts every authoritative entry,
/// then marks every confirmed id.  The order is fixed — an entry is never
/// marked synced before its authoritative content is in the table.
pub fn apply_sync_response(store: &mut Store, resp: &SyncResponse)
    requires
        old(store).wf(),
        forall|k: int|
            0 <= k < resp.entries.deep_view().len() ==> wf_entry(resp.entries.deep_view()[k]),
    ensures
        final(store)@ == mark_ids(
            apply_entries(old(store)@, resp.entries.deep_view()),
            resp.synced_ids.deep_view(),
        ),
        final(store).wf(),
{
    let ghost s0 = store@;
    let ghost es = resp.entries.deep_view();
    let mut i: usize = 0;
    while i < resp.entries.len()
        invariant
            i <= resp.entries.len(),
            es == resp.entries.deep_view(),
            es.len() == resp.entries.len(),
            forall|k: int| 0 <= k < es.len() ==> wf_entry(es[k]),
            store.wf(),
            store@ == apply_upto(s0, es, i as int),
        decreases resp.entries.len() - i,
    {
        proof {
            assert(resp.entries@[i as int]@ == es[i as int]);
        }
        store.save_time_entry(&resp.entries[i]);
        i += 1;
    }
    let ghost s1 = store@;
    let ghost ids = resp.synced_ids.deep_view();
    let mut j: usize = 0;
    while j < resp.synced_ids.len()
        invariant
            j <= resp.synced_ids.len(),
            ids == resp.synced_ids.deep_view(),
            ids.len() == resp.synced_ids.len(),
            store.wf(),
            store@ == mark_upto(s1, ids, j as int),
        decreases resp.synced_ids.len() - j,
    {
        proof {
            assert(resp.synced_ids.deep_view()[j as int] == resp.synced_ids@[j as int]@);
            assert(Option::<String>::None.deep_view() == Option::<Seq<char>>::None);
        }
        store.mark_entry_synced(&resp.synced_ids[j], None);
        j += 1;
    }
}

/// One sync pass, given the outcome the host's transport produced for the
/// unsynced batch.  On success the response is applied — upsert first,
/// mark second; on failure the error is surfaced unchanged and no entry's
/// `synced` flag changes, nothing is added and nothing is overwritten.
pub fn sync_with_server(store: &mut Store, outcome: Result<SyncResponse, SyncError>) -> (r: Result<
    (),
    SyncError,
>)
    requires
        old(store).wf(),
        outcome matches Ok(resp) ==> forall|k: int|
            0 <= k < resp.entries.deep_view().len() ==> wf_entry(resp.entries.deep_view()[k]),
    ensures
        match outcome {
            Ok(resp) => r is Ok && final(store)@ == mark_ids(
                apply_entries(old(store)@, resp.entries.deep_view()),
                resp.synced_ids.deep_view(),
            ),
            Err(e) => final(store)@ == old(store)@ && r == Err::<(), SyncError>(e),
        },
        final(store).wf(),
{
    match outcome {
        Ok(resp) => {
            apply_sync_response(store, &resp);
            Ok(())
        },
        Err(e) => Err(e),
    }
}

} // verus!
