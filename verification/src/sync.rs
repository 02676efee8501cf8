//! The sync engine: one run that reconciles the local store with what the
//! remote reports.
//!
//! A run is full when no full sync has ever completed (`last_full_sync_at`
//! is `None`), and incremental afterwards. A full run marks everything
//! stale, reconfirms what the remote still reports, and deletes the rest.
//! An incremental run pulls only entries changed since the last successful
//! sync, deletes feeds and categories by id-set difference, and deletes
//! entries only on the server's explicit `removed` signal.

use vstd::prelude::*;

use crate::miniflux::{Category, Entry, EntryFilters, Feed};
use crate::remote::{spec_window, RemoteSnapshot};
use crate::store::{
    category_row, entry_row, feed_row, spec_cat_kept_remote, spec_cat_stale_for,
    spec_category_row, spec_entry_removed_after, spec_entry_row, spec_entry_stale_for,
    spec_feed_kept_remote, spec_feed_row, spec_feed_stale_for, spec_stale_cat, spec_stale_entry,
    spec_stale_feed, lemma_same_categories, lemma_same_entries, lemma_same_feeds, EntryRow,
    LocalStore, SyncQueueRow, SyncState,
};
use crate::table::{
    by_key, has_key, keys_unique, lemma_by_key_carries, lemma_push_key, lemma_split_key, Keyed,
};

verus! {

/// Counts reported to the caller after a sync run.
#[derive(Debug, Clone, Copy, PartialEq, Eq, Structural)]
pub struct SyncSummary {
    pub entries_pulled: u32,
    pub entries_pushed: u32,
    pub feeds_pulled: u32,
    pub categories_pulled: u32,
}

/// The sync state row a store without one receives on first access.
pub open spec fn spec_default_sync_state() -> SyncState {
    SyncState {
        id: 1,
        last_sync_at: None,
        last_full_sync_at: None,
        sync_in_progress: false,
        sync_error: None,
        sync_version: 1,
    }
}

/// The sync state a run starts from: the stored row, or the default row
/// that first access creates.
pub open spec fn spec_state0(s: LocalStore) -> SyncState {
    match s.sync_state {
        Some(st) => st,
        None => spec_default_sync_state(),
    }
}

/// Reads the singleton sync state row, lazily creating the default row on
/// first access. Only one row ever exists.
pub fn get_or_create_sync_state(store: &mut LocalStore) -> (s: SyncState)
    ensures
        s == spec_state0(*old(store)),
        final(store).sync_state == Some(s),
        final(store).categories == old(store).categories,
        final(store).feeds == old(store).feeds,
        final(store).entries == old(store).entries,
        final(store).sync_queue == old(store).sync_queue,
{
    match &store.sync_state {
        Some(s) => s.clone(),
        None => {
            let s = SyncState {
                id: 1,
                last_sync_at: None,
                last_full_sync_at: None,
                sync_in_progress: false,
                sync_error: None,
                sync_version: 1,
            };
            store.sync_state = Some(s.clone());
            s
        },
    }
}

/// Appends a pending operation to the write queue and returns its id. New
/// queue rows start with no retries, the `pending` status, and both
/// bookkeeping timestamps set to the enqueue time.
pub fn enqueue_sync_operation(
    store: &mut LocalStore,
    entity_type: &str,
    entity_id: i64,
    operation_type: &str,
    payload: &str,
    now: i64,
) -> (id: i64)
    requires
        old(store).sync_queue@.len() < 0x7fff_ffff_ffff_ffff,
    ensures
        final(store).sync_queue@.len() == old(store).sync_queue@.len() + 1,
        final(store).sync_queue@ == old(store).sync_queue@.push(
            final(store).sync_queue@.last(),
        ),
        ({
            let row = final(store).sync_queue@.last();
            &&& id == row.id == old(store).sync_queue@.len() + 1
            &&& row.operation_type@ == operation_type@
            &&& row.entity_type@ == entity_type@
            &&& row.entity_id == entity_id
            &&& row.payload@ == payload@
            &&& row.retry_count == 0
            &&& row.status@ == "pending"@
            &&& row.created_at == now
            &&& row.updated_at == now
        }),
        final(store).categories == old(store).categories,
        final(store).feeds == old(store).feeds,
        final(store).entries == old(store).entries,
        final(store).sync_state == old(store).sync_state,
{
    let id = store.sync_queue.len() as i64 + 1;
    let row = SyncQueueRow {
        id,
        operation_type: operation_type.to_owned(),
        entity_type: entity_type.to_owned(),
        entity_id,
        payload: payload.to_owned(),
        retry_count: 0,
        status: "pending".to_owned(),
        created_at: now,
        updated_at: now,
    };
    store.sync_queue.push(row);
    id
}

/// The ids of the reported categories, the authoritative id-set of the run.
pub fn collect_category_ids(categories: &Vec<Category>) -> (ids: Vec<i64>)
    ensures
        ids@.len() == categories@.len(),
        forall|j: int| 0 <= j < ids@.len() ==> ids@[j] == categories@[j].id,
        forall|id: i64| ids@.contains(id) <==> has_key(categories@, id),
{
    let n = categories.len();
    let mut ids: Vec<i64> = Vec::new();
    let mut i: usize = 0;
    while i < n
        invariant
            i <= n,
            n == categories@.len(),
            ids@.len() == i,
            forall|j: int| 0 <= j < i ==> ids@[j] == categories@[j].id,
        decreases n - i,
    {
        ids.push(categories[i].id);
        i += 1;
    }
    proof {
        assert forall|id: i64| ids@.contains(id) implies has_key(categories@, id) by {
            let j = choose|j: int| 0 <= j < ids@.len() && ids@[j] == id;
            assert(categories@[j].key() == id);
        }
        assert forall|id: i64| has_key(categories@, id) implies ids@.contains(id) by {
            let j = choose|j: int| 0 <= j < categories@.len() && categories@[j].key() == id;
            assert(ids@[j] == id);
        }
    }
    ids
}

/// The ids of the reported feeds, the authoritative id-set of the run.
pub fn collect_feed_ids(feeds: &Vec<Feed>) -> (ids: Vec<i64>)
    ensures
        ids@.len() == feeds@.len(),
        forall|j: int| 0 <= j < ids@.len() ==> ids@[j] == feeds@[j].id,
        forall|id: i64| ids@.contains(id) <==> has_key(feeds@, id),
{
    let n = feeds.len();
    let mut ids: Vec<i64> = Vec::new();
    let mut i: usize = 0;
    while i < n
        invariant
            i <= n,
            n == feeds@.len(),
            ids@.len() == i,
            forall|j: int| 0 <= j < i ==> ids@[j] == feeds@[j].id,
        decreases n - i,
    {
        ids.push(feeds[i].id);
        i += 1;
    }
    proof {
        assert forall|id: i64| ids@.contains(id) implies has_key(feeds@, id) by {
            let j = choose|j: int| 0 <= j < ids@.len() && ids@[j] == id;
            assert(feeds@[j].key() == id);
        }
        assert forall|id: i64| has_key(feeds@, id) implies ids@.contains(id) by {
            let j = choose|j: int| 0 <= j < feeds@.len() && feeds@[j].key() == id;
            assert(ids@[j] == id);
        }
    }
    ids
}

/// Batched category upsert: every reported category is mirrored, keyed by
/// id, and rows the report does not name are untouched.
pub fn upsert_categories(store: &mut LocalStore, categories: &Vec<Category>, now: i64)
    requires
        old(store).wf(),
        keys_unique(categories@),
    ensures
        final(store).wf(),
        forall|id: i64|
            final(store).has_cat(id) <==> old(store).has_cat(id) || has_key(categories@, id),
        forall|id: i64|
            has_key(categories@, id) ==> final(store).cat(id) == spec_category_row(
                by_key(categories@, id),
                now,
            ),
        forall|id: i64|
            !has_key(categories@, id) && old(store).has_cat(id) ==> final(store).cat(id) == old(
                store,
            ).cat(id),
        final(store).feeds == old(store).feeds,
        final(store).entries == old(store).entries,
        final(store).sync_state == old(store).sync_state,
        final(store).sync_queue == old(store).sync_queue,
{
    let n = categories.len();
    let mut i: usize = 0;
    while i < n
        invariant
            i <= n,
            n == categories@.len(),
            store.wf(),
            keys_unique(categories@),
            forall|id: i64|
                store.has_cat(id) <==> old(store).has_cat(id) || has_key(
                    categories@.subrange(0, i as int),
                    id,
                ),
            forall|j: int|
                0 <= j < i ==> store.cat(categories@[j].id) == spec_category_row(
                    categories@[j],
                    now,
                ),
            forall|id: i64|
                !has_key(categories@.subrange(0, i as int), id) && old(store).has_cat(id)
                    ==> store.cat(id) == old(store).cat(id),
            store.feeds == old(store).feeds,
            store.entries == old(store).entries,
            store.sync_state == old(store).sync_state,
            store.sync_queue == old(store).sync_queue,
        decreases n - i,
    {
        let row = category_row(&categories[i], now);
        proof {
            assert(keys_unique(categories@.subrange(0, i as int)));
            assert(!has_key(categories@.subrange(0, i as int), categories@[i as int].id)) by {
                if has_key(categories@.subrange(0, i as int), categories@[i as int].id) {
                    let j = choose|j: int|
                        0 <= j < i && categories@.subrange(0, i as int)[j].key()
                            == categories@[i as int].id;
                    assert(categories@[j].key() == categories@[i as int].key());
                }
            }
            lemma_push_key(categories@.subrange(0, i as int), categories@[i as int]);
            assert(categories@.subrange(0, i + 1) =~= categories@.subrange(0, i as int).push(
                categories@[i as int],
            ));
        }
        store.upsert_category_row(row);
        proof {
            assert forall|j: int|
                0 <= j < i + 1 implies store.cat(categories@[j].id) == spec_category_row(
                categories@[j],
                now,
            ) by {
                if j < i {
                    assert(categories@.subrange(0, i as int)[j].key() == categories@[j].id);
                    assert(categories@[j].key() != categories@[i as int].key());
                }
            }
        }
        i += 1;
    }
    proof {
        assert(categories@.subrange(0, n as int) =~= categories@);
    }
}

/// Batched feed upsert.
pub fn upsert_feeds(store: &mut LocalStore, feeds: &Vec<Feed>, now: i64)
    requires
        old(store).wf(),
        keys_unique(feeds@),
    ensures
        final(store).wf(),
        forall|id: i64| final(store).has_feed(id) <==> old(store).has_feed(id) || has_key(feeds@, id),
        forall|id: i64|
            has_key(feeds@, id) ==> final(store).feed(id) == spec_feed_row(
                by_key(feeds@, id),
                now,
            ),
        forall|id: i64|
            !has_key(feeds@, id) && old(store).has_feed(id) ==> final(store).feed(id) == old(
                store,
            ).feed(id),
        final(store).categories == old(store).categories,
        final(store).entries == old(store).entries,
        final(store).sync_state == old(store).sync_state,
        final(store).sync_queue == old(store).sync_queue,
{
    let n = feeds.len();
    let mut i: usize = 0;
    while i < n
        invariant
            i <= n,
            n == feeds@.len(),
            store.wf(),
            keys_unique(feeds@),
            forall|id: i64|
                store.has_feed(id) <==> old(store).has_feed(id) || has_key(
                    feeds@.subrange(0, i as int),
                    id,
                ),
            forall|j: int|
                0 <= j < i ==> store.feed(feeds@[j].id) == spec_feed_row(feeds@[j], now),
            forall|id: i64|
                !has_key(feeds@.subrange(0, i as int), id) && old(store).has_feed(id)
                    ==> store.feed(id) == old(store).feed(id),
            store.categories == old(store).categories,
            store.entries == old(store).entries,
            store.sync_state == old(store).sync_state,
            store.sync_queue == old(store).sync_queue,
        decreases n - i,
    {
        let row = feed_row(&feeds[i], now);
        proof {
            assert(keys_unique(feeds@.subrange(0, i as int)));
            assert(!has_key(feeds@.subrange(0, i as int), feeds@[i as int].id)) by {
                if has_key(feeds@.subrange(0, i as int), feeds@[i as int].id) {
                    let j = choose|j: int|
                        0 <= j < i && feeds@.subrange(0, i as int)[j].key()
                            == feeds@[i as int].id;
                    assert(feeds@[j].key() == feeds@[i as int].key());
                }
            }
            lemma_push_key(feeds@.subrange(0, i as int), feeds@[i as int]);
            assert(feeds@.subrange(0, i + 1) =~= feeds@.subrange(0, i as int).push(
                feeds@[i as int],
            ));
        }
        store.upsert_feed_row(row);
        proof {
            assert forall|j: int|
                0 <= j < i + 1 implies store.feed(feeds@[j].id) == spec_feed_row(
                feeds@[j],
                now,
            ) by {
                if j < i {
                    assert(feeds@.subrange(0, i as int)[j].key() == feeds@[j].id);
                    assert(feeds@[j].key() != feeds@[i as int].key());
                }
            }
        }
        i += 1;
    }
    proof {
        assert(feeds@.subrange(0, n as int) =~= feeds@);
    }
}

/// Batched entry upsert, one page at a time so partial progress survives a
/// later failure.
pub fn upsert_entries(store: &mut LocalStore, entries: &Vec<Entry>, now: i64)
    requires
        old(store).wf(),
        keys_unique(entries@),
    ensures
        final(store).wf(),
        forall|id: i64|
            final(store).has_entry(id) <==> old(store).has_entry(id) || has_key(entries@, id),
        forall|id: i64|
            has_key(entries@, id) ==> final(store).entry(id) == spec_entry_row(
                by_key(entries@, id),
                now,
            ),
        forall|id: i64|
            !has_key(entries@, id) && old(store).has_entry(id) ==> final(store).entry(id) == old(
                store,
            ).entry(id),
        final(store).categories == old(store).categories,
        final(store).feeds == old(store).feeds,
        final(store).sync_state == old(store).sync_state,
        final(store).sync_queue == old(store).sync_queue,
{
    let n = entries.len();
    let mut i: usize = 0;
    while i < n
        invariant
            i <= n,
            n == entries@.len(),
            store.wf(),
            keys_unique(entries@),
            forall|id: i64|
                store.has_entry(id) <==> old(store).has_entry(id) || has_key(
                    entries@.subrange(0, i as int),
                    id,
                ),
            forall|j: int|
                0 <= j < i ==> store.entry(entries@[j].id) == spec_entry_row(entries@[j], now),
            forall|id: i64|
                !has_key(entries@.subrange(0, i as int), id) && old(store).has_entry(id)
                    ==> store.entry(id) == old(store).entry(id),
            store.categories == old(store).categories,
            store.feeds == old(store).feeds,
            store.sync_state == old(store).sync_state,
            store.sync_queue == old(store).sync_queue,
        decreases n - i,
    {
        let row = entry_row(&entries[i], now);
        proof {
            assert(keys_unique(entries@.subrange(0, i as int)));
            assert(!has_key(entries@.subrange(0, i as int), entries@[i as int].id)) by {
                if has_key(entries@.subrange(0, i as int), entries@[i as int].id) {
                    let j = choose|j: int|
                        0 <= j < i && entries@.subrange(0, i as int)[j].key()
                            == entries@[i as int].id;
                    assert(entries@[j].key() == entries@[i as int].key());
                }
            }
            lemma_push_key(entries@.subrange(0, i as int), entries@[i as int]);
            assert(entries@.subrange(0, i + 1) =~= entries@.subrange(0, i as int).push(
                entries@[i as int],
            ));
        }
        store.upsert_entry_row(row);
        proof {
            assert forall|j: int|
                0 <= j < i + 1 implies store.entry(entries@[j].id) == spec_entry_row(
                entries@[j],
                now,
            ) by {
                if j < i {
                    assert(entries@.subrange(0, i as int)[j].key() == entries@[j].id);
                    assert(entries@[j].key() != entries@[i as int].key());
                }
            }
        }
        i += 1;
    }
    proof {
        assert(entries@.subrange(0, n as int) =~= entries@);
    }
}


/// No record carries any key in an empty listing.
pub proof fn lemma_empty_key<R: Keyed>()
    ensures
        forall|k: i64| !has_key(Seq::<R>::empty(), k),
{
    assert forall|k: i64| !has_key(Seq::<R>::empty(), k) by {
        if has_key(Seq::<R>::empty(), k) {
            let i = choose|i: int| 0 <= i < Seq::<R>::empty().len() && Seq::<R>::empty()[i].key() == k;
        }
    }
}

/// The change boundary of the run: a full sync pulls everything, an
/// incremental sync only what changed since the last successful sync.
pub open spec fn spec_changed_after(st0: SyncState) -> Option<i64> {
    if st0.last_full_sync_at is None {
        None
    } else {
        st0.last_sync_at
    }
}

/// Categories after the upsert stage: reported ones mirrored, the rest
/// carrying their old value, stale-marked when a full run began by marking.
pub open spec fn spec_cats_marked_upserted(
    s0: LocalStore,
    s1: LocalStore,
    cats: Seq<Category>,
    u: i64,
    now: i64,
    marked: bool,
) -> bool {
    &&& forall|id: i64| s1.has_cat(id) <==> s0.has_cat(id) || has_key(cats, id)
    &&& forall|id: i64|
        has_key(cats, id) ==> s1.cat(id) == spec_category_row(by_key(cats, id), now)
    &&& forall|id: i64|
        !has_key(cats, id) && s0.has_cat(id) ==> s1.cat(id) == (if marked {
            spec_stale_cat(s0.cat(id), u)
        } else {
            s0.cat(id)
        })
}

/// Feeds after the upsert stage.
pub open spec fn spec_feeds_marked_upserted(
    s0: LocalStore,
    s1: LocalStore,
    feeds: Seq<Feed>,
    u: i64,
    now: i64,
    marked: bool,
) -> bool {
    &&& forall|id: i64| s1.has_feed(id) <==> s0.has_feed(id) || has_key(feeds, id)
    &&& forall|id: i64| has_key(feeds, id) ==> s1.feed(id) == spec_feed_row(by_key(feeds, id), now)
    &&& forall|id: i64|
        !has_key(feeds, id) && s0.has_feed(id) ==> s1.feed(id) == (if marked {
            spec_stale_feed(s0.feed(id), u)
        } else {
            s0.feed(id)
        })
}

/// Entries after the upsert stage, over the pulled window.
pub open spec fn spec_entries_marked_upserted(
    s0: LocalStore,
    s1: LocalStore,
    w: Seq<Entry>,
    u: i64,
    now: i64,
    marked: bool,
) -> bool {
    &&& forall|id: i64| s1.has_entry(id) <==> s0.has_entry(id) || has_key(w, id)
    &&& forall|id: i64| has_key(w, id) ==> s1.entry(id) == spec_entry_row(by_key(w, id), now)
    &&& forall|id: i64|
        !has_key(w, id) && s0.has_entry(id) ==> s1.entry(id) == (if marked {
            spec_stale_entry(s0.entry(id), u)
        } else {
            s0.entry(id)
        })
}

/// Categories after a completed run: exactly what the remote reports, plus
/// other users' rows, nothing else. Both regimes meet this: a full run by
/// stale marking and deletion, an incremental run by id-set difference.
pub open spec fn spec_cats_reconciled(
    s0: LocalStore,
    s1: LocalStore,
    cats: Seq<Category>,
    u: i64,
    now: i64,
) -> bool {
    &&& forall|id: i64|
        s1.has_cat(id) <==> has_key(cats, id) || (s0.has_cat(id) && s0.cat(id).user_id != u)
    &&& forall|id: i64|
        has_key(cats, id) ==> s1.cat(id) == spec_category_row(by_key(cats, id), now)
    &&& forall|id: i64| s1.has_cat(id) && !has_key(cats, id) ==> s1.cat(id) == s0.cat(id)
}

/// Feeds after a completed run.
pub open spec fn spec_feeds_reconciled(
    s0: LocalStore,
    s1: LocalStore,
    feeds: Seq<Feed>,
    u: i64,
    now: i64,
) -> bool {
    &&& forall|id: i64|
        s1.has_feed(id) <==> has_key(feeds, id) || (s0.has_feed(id) && s0.feed(id).user_id != u)
    &&& forall|id: i64| has_key(feeds, id) ==> s1.feed(id) == spec_feed_row(by_key(feeds, id), now)
    &&& forall|id: i64| s1.has_feed(id) && !has_key(feeds, id) ==> s1.feed(id) == s0.feed(id)
}

/// Entries after a completed full run: the remote's full window is
/// authoritative, exactly like the other two tables.
pub open spec fn spec_entries_full_reconciled(
    s0: LocalStore,
    s1: LocalStore,
    w: Seq<Entry>,
    u: i64,
    now: i64,
) -> bool {
    &&& forall|id: i64|
        s1.has_entry(id) <==> has_key(w, id) || (s0.has_entry(id) && s0.entry(id).user_id != u)
    &&& forall|id: i64| has_key(w, id) ==> s1.entry(id) == spec_entry_row(by_key(w, id), now)
    &&& forall|id: i64| s1.has_entry(id) && !has_key(w, id) ==> s1.entry(id) == s0.entry(id)
}

/// The entry row standing under `id` after the upsert stage of an
/// incremental run: the freshly pulled row, or the old one.
pub open spec fn spec_entry_mid(s0: LocalStore, w: Seq<Entry>, id: i64, now: i64) -> EntryRow {
    if has_key(w, id) {
        spec_entry_row(by_key(w, id), now)
    } else {
        s0.entry(id)
    }
}

/// Entries after a completed incremental run: the changed window upserted,
/// then only rows carrying the explicit removed-signal deleted. Without a
/// previous sync boundary no entry is deleted at all.
pub open spec fn spec_entries_incremental(
    s0: LocalStore,
    s1: LocalStore,
    w: Seq<Entry>,
    u: i64,
    boundary: Option<i64>,
    now: i64,
) -> bool {
    match boundary {
        None => spec_entries_marked_upserted(s0, s1, w, u, now, false),
        Some(b) => {
            &&& forall|id: i64|
                s1.has_entry(id) <==> (has_key(w, id) || s0.has_entry(id))
                    && !spec_entry_removed_after(spec_entry_mid(s0, w, id, now), u, b)
            &&& forall|id: i64| s1.has_entry(id) ==> s1.entry(id) == spec_entry_mid(s0, w, id, now)
        },
    }
}

/// What one completed run does to the store: sync state advanced and
/// latched, every table reconciled against what the remote reported, the
/// write queue untouched.
pub open spec fn spec_run_success(
    s0: LocalStore,
    s1: LocalStore,
    remote: RemoteSnapshot,
    now: i64,
) -> bool {
    let st0 = spec_state0(s0);
    let u = remote.user->0.id;
    let full = st0.last_full_sync_at is None;
    let w = spec_window(remote.entries->0@, spec_changed_after(st0));
    &&& s1.sync_state == Some(
        SyncState {
            last_sync_at: Some(now),
            last_full_sync_at: if full {
                Some(now)
            } else {
                st0.last_full_sync_at
            },
            sync_in_progress: false,
            sync_error: None,
            ..st0
        },
    )
    &&& spec_cats_reconciled(s0, s1, remote.categories->0@, u, now)
    &&& spec_feeds_reconciled(s0, s1, remote.feeds->0@, u, now)
    &&& if full {
        spec_entries_full_reconciled(s0, s1, w, u, now)
    } else {
        spec_entries_incremental(s0, s1, w, u, st0.last_sync_at, now)
    }
    &&& s1.sync_queue == s0.sync_queue
}

/// The counts a completed run reports: everything the remote served.
/// Nothing is pushed by the pull-only run.
pub open spec fn spec_run_summary(remote: RemoteSnapshot, st0: SyncState) -> SyncSummary {
    SyncSummary {
        entries_pulled: spec_window(remote.entries->0@, spec_changed_after(st0)).len() as u32,
        entries_pushed: 0,
        feeds_pulled: remote.feeds->0@.len() as u32,
        categories_pulled: remote.categories->0@.len() as u32,
    }
}

/// What an aborted run leaves in the tables: whatever had already been
/// durably applied when the failing endpoint answered — nothing is rolled
/// back, and nothing past the failure point was touched.
pub open spec fn spec_failed_tables(
    s0: LocalStore,
    s1: LocalStore,
    remote: RemoteSnapshot,
    now: i64,
) -> bool {
    let st0 = spec_state0(s0);
    let full = st0.last_full_sync_at is None;
    if remote.user is None {
        &&& s1.categories == s0.categories
        &&& s1.feeds == s0.feeds
        &&& s1.entries == s0.entries
    } else {
        let u = remote.user->0.id;
        let cl = if remote.categories is Some {
            remote.categories->0@
        } else {
            Seq::empty()
        };
        let fl = if remote.categories is Some && remote.feeds is Some {
            remote.feeds->0@
        } else {
            Seq::empty()
        };
        &&& spec_cats_marked_upserted(s0, s1, cl, u, now, full)
        &&& spec_feeds_marked_upserted(s0, s1, fl, u, now, full)
        &&& spec_entries_marked_upserted(s0, s1, Seq::empty(), u, now, full)
    }
}

/// Pulls the entry listing page by page — fixed window, increasing offset,
/// each page upserted before the next request — until the server-reported
/// total is reached or a page comes back empty. Returns how many entries
/// were pulled.
pub fn sync_entry_pages(
    store: &mut LocalStore,
    remote: &RemoteSnapshot,
    changed_after: Option<i64>,
    now: i64,
) -> (r: Result<u32, String>)
    requires
        old(store).wf(),
        remote.wf(),
    ensures
        final(store).wf(),
        r is Ok <==> remote.entries is Some,
        remote.entries is None ==> *final(store) == *old(store),
        remote.entries is Some ==> forall|id: i64|
            final(store).has_entry(id) <==> old(store).has_entry(id) || has_key(
                spec_window(remote.entries->0@, changed_after),
                id,
            ),
        remote.entries is Some ==> forall|id: i64|
            has_key(spec_window(remote.entries->0@, changed_after), id) ==> final(store).entry(id)
                == spec_entry_row(
                by_key(spec_window(remote.entries->0@, changed_after), id),
                now,
            ),
        remote.entries is Some ==> forall|id: i64|
            !has_key(spec_window(remote.entries->0@, changed_after), id) && old(store).has_entry(
                id,
            ) ==> final(store).entry(id) == old(store).entry(id),
        remote.entries is Some ==> r->Ok_0 == spec_window(
            remote.entries->0@,
            changed_after,
        ).len(),
        final(store).categories == old(store).categories,
        final(store).feeds == old(store).feeds,
        final(store).sync_state == old(store).sync_state,
        final(store).sync_queue == old(store).sync_queue,
{
    let limit: i64 = 200;
    let mut offset: i64 = 0;
    let mut pulled: u32 = 0;
    proof {
        if remote.entries is Some {
            crate::remote::lemma_window_keys(remote.entries->0@, changed_after);
        }
    }
    loop
        invariant_except_break
            store.wf(),
            remote.wf(),
            limit == 200,
            0 <= offset,
            remote.entries is None ==> *store == *old(store) && offset == 0 && pulled == 0,
            remote.entries is Some ==> ({
                let w = spec_window(remote.entries->0@, changed_after);
                &&& keys_unique(w)
                &&& w.len() <= remote.entries->0@.len()
                &&& offset <= w.len()
                &&& pulled as int == offset
                &&& forall|id: i64|
                    store.has_entry(id) <==> old(store).has_entry(id) || has_key(
                        w.subrange(0, offset as int),
                        id,
                    )
                &&& forall|id: i64|
                    has_key(w.subrange(0, offset as int), id) ==> store.entry(id)
                        == spec_entry_row(by_key(w.subrange(0, offset as int), id), now)
                &&& forall|id: i64|
                    !has_key(w.subrange(0, offset as int), id) && old(store).has_entry(id)
                        ==> store.entry(id) == old(store).entry(id)
            }),
            store.categories == old(store).categories,
            store.feeds == old(store).feeds,
            store.sync_state == old(store).sync_state,
            store.sync_queue == old(store).sync_queue,
        ensures
            store.wf(),
            remote.entries is Some,
            pulled as int == spec_window(remote.entries->0@, changed_after).len(),
            forall|id: i64|
                store.has_entry(id) <==> old(store).has_entry(id) || has_key(
                    spec_window(remote.entries->0@, changed_after),
                    id,
                ),
            forall|id: i64|
                has_key(spec_window(remote.entries->0@, changed_after), id) ==> store.entry(id)
                    == spec_entry_row(
                    by_key(spec_window(remote.entries->0@, changed_after), id),
                    now,
                ),
            forall|id: i64|
                !has_key(spec_window(remote.entries->0@, changed_after), id) && old(
                    store,
                ).has_entry(id) ==> store.entry(id) == old(store).entry(id),
            store.categories == old(store).categories,
            store.feeds == old(store).feeds,
            store.sync_state == old(store).sync_state,
            store.sync_queue == old(store).sync_queue,
        decreases (if remote.entries is Some {
            spec_window(remote.entries->0@, changed_after).len() as int - offset
        } else {
            0
        }),
    {
        let mut filters = EntryFilters::none();
        filters.offset = Some(offset);
        filters.limit = Some(limit);
        filters.order = Some("published_at".to_owned());
        filters.direction = Some("desc".to_owned());
        filters.changed_after = changed_after;
        let resp = match remote.get_entries(&filters) {
            Ok(resp) => resp,
            Err(e) => {
                return Err(e);
            },
        };
        let ghost w = spec_window(remote.entries->0@, changed_after);
        let ghost lo = offset as int;
        let ghost hi = if offset + limit <= w.len() {
            offset + limit
        } else {
            w.len() as int
        };
        let page = match resp.entries {
            Some(page) => page,
            None => {
                proof {
                    assert(false);
                }
                return Err(String::new());
            },
        };
        let count = page.len();
        if count == 0 {
            proof {
                assert(offset == w.len());
                assert(w.subrange(0, offset as int) =~= w);
            }
            break;
        }
        proof {
            lemma_split_key(w, lo, hi);
            assert(page@ == w.subrange(lo, hi));
            assert(keys_unique(page@));
        }
        let ghost mid = *store;
        upsert_entries(store, &page, now);
        proof {
            assert(w.subrange(0, lo).len() == lo);
            assert(hi == lo + count);
            assert forall|id: i64|
                store.has_entry(id) <==> old(store).has_entry(id) || has_key(
                    w.subrange(0, hi),
                    id,
                ) by {
                assert(store.has_entry(id) <==> mid.has_entry(id) || has_key(page@, id));
            }
            assert forall|id: i64| has_key(w.subrange(0, hi), id) implies store.entry(id)
                == spec_entry_row(by_key(w.subrange(0, hi), id), now) by {
                if has_key(page@, id) {
                    assert(store.entry(id) == spec_entry_row(by_key(page@, id), now));
                    assert(by_key(w.subrange(0, hi), id) == by_key(page@, id));
                } else {
                    assert(has_key(w.subrange(0, lo), id));
                    assert(by_key(w.subrange(0, hi), id) == by_key(w.subrange(0, lo), id));
                    assert(mid.entry(id) == spec_entry_row(by_key(w.subrange(0, lo), id), now));
                    assert(store.entry(id) == mid.entry(id));
                }
            }
            assert forall|id: i64|
                !has_key(w.subrange(0, hi), id) && old(store).has_entry(id) implies store.entry(
                id,
            ) == old(store).entry(id) by {
                assert(!has_key(page@, id));
                assert(!has_key(w.subrange(0, lo), id));
                assert(mid.has_entry(id));
                assert(store.entry(id) == mid.entry(id));
            }
        }
        pulled = pulled + count as u32;
        if pulled as i64 >= resp.total {
            proof {
                assert(pulled as int == hi);
                assert(hi == w.len());
                assert(w.subrange(0, hi) =~= w);
            }
            break;
        }
        proof {
            assert(pulled as int == hi);
            assert(hi < w.len());
            assert(hi == offset + limit);
        }
        offset = offset + limit;
    }
    proof {
        assert(remote.entries is Some);
        assert(store.wf());
        if remote.entries is Some {
            let w = spec_window(remote.entries->0@, changed_after);
            assert(pulled as int == w.len());
            assert(forall|id: i64|
                store.has_entry(id) <==> old(store).has_entry(id) || has_key(w, id));
            assert(forall|id: i64|
                has_key(w, id) ==> store.entry(id) == spec_entry_row(by_key(w, id), now));
            assert(forall|id: i64|
                !has_key(w, id) && old(store).has_entry(id) ==> store.entry(id) == old(
                    store,
                ).entry(id));
        }
    }
    Ok(pulled)
}

/// A full run reconciles a table: marking, reconfirming upserts, and stale
/// deletion compose to "exactly what the remote reports, plus other users'
/// rows". Stated for categories.
pub proof fn lemma_cats_full_reconciled(
    s0: LocalStore,
    sm: LocalStore,
    sc: LocalStore,
    s1: LocalStore,
    cats: Seq<Category>,
    u: i64,
    now: i64,
)
    requires
        forall|id: i64| sm.has_cat(id) <==> s0.has_cat(id),
        forall|id: i64| s0.has_cat(id) ==> sm.cat(id) == spec_stale_cat(s0.cat(id), u),
        forall|id: i64| sc.has_cat(id) <==> sm.has_cat(id) || has_key(cats, id),
        forall|id: i64|
            has_key(cats, id) ==> sc.cat(id) == spec_category_row(by_key(cats, id), now),
        forall|id: i64| !has_key(cats, id) && sm.has_cat(id) ==> sc.cat(id) == sm.cat(id),
        forall|id: i64|
            s1.has_cat(id) <==> sc.has_cat(id) && !spec_cat_stale_for(sc.cat(id), u),
        forall|id: i64| s1.has_cat(id) ==> s1.cat(id) == sc.cat(id),
    ensures
        spec_cats_reconciled(s0, s1, cats, u, now),
{
    assert forall|id: i64|
        s1.has_cat(id) <==> has_key(cats, id) || (s0.has_cat(id) && s0.cat(id).user_id
            != u) by {
        if has_key(cats, id) {
            assert(sc.cat(id) == spec_category_row(by_key(cats, id), now));
        } else if s0.has_cat(id) {
            assert(sc.cat(id) == sm.cat(id));
            assert(sm.cat(id) == spec_stale_cat(s0.cat(id), u));
        }
    }
    assert forall|id: i64| s1.has_cat(id) && !has_key(cats, id) implies s1.cat(id) == s0.cat(
        id,
    ) by {
        assert(sc.cat(id) == sm.cat(id));
        assert(sm.cat(id) == spec_stale_cat(s0.cat(id), u));
    }
}

/// An incremental run reconciles a table to the same end state: upserts
/// plus id-set deletion. Stated for categories.
pub proof fn lemma_cats_incremental_reconciled(
    s0: LocalStore,
    sc: LocalStore,
    s1: LocalStore,
    cats: Seq<Category>,
    ids: Seq<i64>,
    u: i64,
    now: i64,
)
    requires
        forall|id: i64| sc.has_cat(id) <==> s0.has_cat(id) || has_key(cats, id),
        forall|id: i64|
            has_key(cats, id) ==> sc.cat(id) == spec_category_row(by_key(cats, id), now),
        forall|id: i64| !has_key(cats, id) && s0.has_cat(id) ==> sc.cat(id) == s0.cat(id),
        forall|id: i64|
            s1.has_cat(id) <==> sc.has_cat(id) && spec_cat_kept_remote(sc.cat(id), u, ids),
        forall|id: i64| s1.has_cat(id) ==> s1.cat(id) == sc.cat(id),
        forall|id: i64| ids.contains(id) <==> has_key(cats, id),
    ensures
        spec_cats_reconciled(s0, s1, cats, u, now),
{
    assert forall|id: i64|
        s1.has_cat(id) <==> has_key(cats, id) || (s0.has_cat(id) && s0.cat(id).user_id
            != u) by {
        if has_key(cats, id) {
            assert(sc.cat(id) == spec_category_row(by_key(cats, id), now));
            assert(sc.cat(id).id == id) by {
                lemma_by_key_carries(cats, id);
            }
            assert(ids.contains(sc.cat(id).id));
        } else if s0.has_cat(id) {
            assert(sc.cat(id) == s0.cat(id));
        }
    }
    assert forall|id: i64| s1.has_cat(id) && !has_key(cats, id) implies s1.cat(id) == s0.cat(
        id,
    ) by {
        assert(sc.cat(id) == s0.cat(id));
    }
}

/// The full-run composition for feeds.
pub proof fn lemma_feeds_full_reconciled(
    s0: LocalStore,
    sm: LocalStore,
    sc: LocalStore,
    s1: LocalStore,
    feeds: Seq<Feed>,
    u: i64,
    now: i64,
)
    requires
        forall|id: i64| sm.has_feed(id) <==> s0.has_feed(id),
        forall|id: i64| s0.has_feed(id) ==> sm.feed(id) == spec_stale_feed(s0.feed(id), u),
        forall|id: i64| sc.has_feed(id) <==> sm.has_feed(id) || has_key(feeds, id),
        forall|id: i64| has_key(feeds, id) ==> sc.feed(id) == spec_feed_row(by_key(feeds, id), now),
        forall|id: i64| !has_key(feeds, id) && sm.has_feed(id) ==> sc.feed(id) == sm.feed(id),
        forall|id: i64|
            s1.has_feed(id) <==> sc.has_feed(id) && !spec_feed_stale_for(sc.feed(id), u),
        forall|id: i64| s1.has_feed(id) ==> s1.feed(id) == sc.feed(id),
    ensures
        spec_feeds_reconciled(s0, s1, feeds, u, now),
{
    assert forall|id: i64|
        s1.has_feed(id) <==> has_key(feeds, id) || (s0.has_feed(id) && s0.feed(id).user_id
            != u) by {
        if has_key(feeds, id) {
            assert(sc.feed(id) == spec_feed_row(by_key(feeds, id), now));
        } else if s0.has_feed(id) {
            assert(sc.feed(id) == sm.feed(id));
            assert(sm.feed(id) == spec_stale_feed(s0.feed(id), u));
        }
    }
    assert forall|id: i64| s1.has_feed(id) && !has_key(feeds, id) implies s1.feed(id) == s0.feed(
        id,
    ) by {
        assert(sc.feed(id) == sm.feed(id));
        assert(sm.feed(id) == spec_stale_feed(s0.feed(id), u));
    }
}

/// The incremental composition for feeds.
pub proof fn lemma_feeds_incremental_reconciled(
    s0: LocalStore,
    sc: LocalStore,
    s1: LocalStore,
    feeds: Seq<Feed>,
    ids: Seq<i64>,
    u: i64,
    now: i64,
)
    requires
        forall|id: i64| sc.has_feed(id) <==> s0.has_feed(id) || has_key(feeds, id),
        forall|id: i64| has_key(feeds, id) ==> sc.feed(id) == spec_feed_row(by_key(feeds, id), now),
        forall|id: i64| !has_key(feeds, id) && s0.has_feed(id) ==> sc.feed(id) == s0.feed(id),
        forall|id: i64|
            s1.has_feed(id) <==> sc.has_feed(id) && spec_feed_kept_remote(sc.feed(id), u, ids),
        forall|id: i64| s1.has_feed(id) ==> s1.feed(id) == sc.feed(id),
        forall|id: i64| ids.contains(id) <==> has_key(feeds, id),
    ensures
        spec_feeds_reconciled(s0, s1, feeds, u, now),
{
    assert forall|id: i64|
        s1.has_feed(id) <==> has_key(feeds, id) || (s0.has_feed(id) && s0.feed(id).user_id
            != u) by {
        if has_key(feeds, id) {
            assert(sc.feed(id) == spec_feed_row(by_key(feeds, id), now));
            assert(sc.feed(id).id == id) by {
                lemma_by_key_carries(feeds, id);
            }
            assert(ids.contains(sc.feed(id).id));
        } else if s0.has_feed(id) {
            assert(sc.feed(id) == s0.feed(id));
        }
    }
    assert forall|id: i64| s1.has_feed(id) && !has_key(feeds, id) implies s1.feed(id) == s0.feed(
        id,
    ) by {
        assert(sc.feed(id) == s0.feed(id));
    }
}

/// The full-run composition for entries, over the pulled window.
pub proof fn lemma_entries_full_reconciled(
    s0: LocalStore,
    sm: LocalStore,
    se: LocalStore,
    s1: LocalStore,
    w: Seq<Entry>,
    u: i64,
    now: i64,
)
    requires
        forall|id: i64| sm.has_entry(id) <==> s0.has_entry(id),
        forall|id: i64| s0.has_entry(id) ==> sm.entry(id) == spec_stale_entry(s0.entry(id), u),
        forall|id: i64| se.has_entry(id) <==> sm.has_entry(id) || has_key(w, id),
        forall|id: i64| has_key(w, id) ==> se.entry(id) == spec_entry_row(by_key(w, id), now),
        forall|id: i64| !has_key(w, id) && sm.has_entry(id) ==> se.entry(id) == sm.entry(id),
        forall|id: i64|
            s1.has_entry(id) <==> se.has_entry(id) && !spec_entry_stale_for(se.entry(id), u),
        forall|id: i64| s1.has_entry(id) ==> s1.entry(id) == se.entry(id),
    ensures
        spec_entries_full_reconciled(s0, s1, w, u, now),
{
    assert forall|id: i64|
        s1.has_entry(id) <==> has_key(w, id) || (s0.has_entry(id) && s0.entry(id).user_id
            != u) by {
        if has_key(w, id) {
            assert(se.entry(id) == spec_entry_row(by_key(w, id), now));
        } else if s0.has_entry(id) {
            assert(se.entry(id) == sm.entry(id));
            assert(sm.entry(id) == spec_stale_entry(s0.entry(id), u));
        }
    }
    assert forall|id: i64| s1.has_entry(id) && !has_key(w, id) implies s1.entry(id) == s0.entry(
        id,
    ) by {
        assert(se.entry(id) == sm.entry(id));
        assert(sm.entry(id) == spec_stale_entry(s0.entry(id), u));
    }
}

/// The incremental composition for entries: upserting the changed window,
/// then deleting exactly the rows that carry the removed-signal.
pub proof fn lemma_entries_incremental_reconciled(
    s0: LocalStore,
    se: LocalStore,
    s1: LocalStore,
    w: Seq<Entry>,
    u: i64,
    boundary: Option<i64>,
    now: i64,
)
    requires
        forall|id: i64| se.has_entry(id) <==> s0.has_entry(id) || has_key(w, id),
        forall|id: i64| has_key(w, id) ==> se.entry(id) == spec_entry_row(by_key(w, id), now),
        forall|id: i64| !has_key(w, id) && s0.has_entry(id) ==> se.entry(id) == s0.entry(id),
        boundary is None ==> s1.entries == se.entries,
        boundary is Some ==> forall|id: i64|
            s1.has_entry(id) <==> se.has_entry(id) && !spec_entry_removed_after(
                se.entry(id),
                u,
                boundary->0,
            ),
        boundary is Some ==> forall|id: i64| s1.has_entry(id) ==> s1.entry(id) == se.entry(id),
    ensures
        spec_entries_incremental(s0, s1, w, u, boundary, now),
{
    match boundary {
        None => {
            lemma_same_entries(s1, se);
        },
        Some(b) => {
            assert forall|id: i64|
                s1.has_entry(id) <==> (has_key(w, id) || s0.has_entry(id))
                    && !spec_entry_removed_after(spec_entry_mid(s0, w, id, now), u, b) by {
                if se.has_entry(id) {
                    assert(se.entry(id) == spec_entry_mid(s0, w, id, now));
                }
            }
            assert forall|id: i64| s1.has_entry(id) implies s1.entry(id) == spec_entry_mid(
                s0,
                w,
                id,
                now,
            ) by {
                assert(se.entry(id) == spec_entry_mid(s0, w, id, now));
            }
        },
    }
}

/// One sync run against the remote: decides full versus incremental from
/// the sync state, pulls and mirrors what the remote reports, reconciles
/// deletions, and on success advances the sync state. On failure the error
/// is returned with the state row still marked in flight; recording the
/// failure is the caller's duty, as `run_sync` does.
#[verifier::rlimit(100)]
pub fn sync_miniflux_impl(
    store: &mut LocalStore,
    remote: &RemoteSnapshot,
    now: i64,
) -> (r: Result<SyncSummary, String>)
    requires
        old(store).wf(),
        remote.wf(),
    ensures
        final(store).wf(),
        r is Ok <==> remote.responsive(),
        remote.responsive() ==> spec_run_success(*old(store), *final(store), *remote, now)
            && r->Ok_0 == spec_run_summary(*remote, spec_state0(*old(store))),
        !remote.responsive() ==> spec_failed_tables(*old(store), *final(store), *remote, now)
            && final(store).sync_state == Some(
            SyncState { sync_in_progress: true, sync_error: None, ..spec_state0(*old(store)) },
        ) && final(store).sync_queue == old(store).sync_queue,
{
    proof {
        lemma_empty_key::<Category>();
        lemma_empty_key::<Feed>();
        lemma_empty_key::<Entry>();
    }
    let ghost s0 = *old(store);
    let sync_state = get_or_create_sync_state(store);
    let is_full_sync = sync_state.last_full_sync_at.is_none();
    store.mark_sync_in_progress();
    let ghost s_begun = *store;
    let user = match remote.get_current_user() {
        Ok(user) => user,
        Err(e) => {
            proof {
                lemma_same_categories(s_begun, s0);
                lemma_same_feeds(s_begun, s0);
                lemma_same_entries(s_begun, s0);
            }
            return Err(e);
        },
    };
    let user_id = user.id;
    let ghost mut s_mc = *store;
    let ghost mut s_mf = *store;
    if is_full_sync {
        store.mark_categories_stale(user_id);
        proof {
            s_mc = *store;
        }
        store.mark_feeds_stale(user_id);
        proof {
            s_mf = *store;
        }
        store.mark_entries_stale(user_id);
    }
    let ghost s_marked = *store;
    proof {
        if is_full_sync {
            lemma_same_categories(s_begun, s0);
            lemma_same_feeds(s_begun, s0);
            lemma_same_entries(s_begun, s0);
            lemma_same_categories(s_mf, s_mc);
            lemma_same_categories(s_marked, s_mf);
            lemma_same_feeds(s_mc, s_begun);
            lemma_same_feeds(s_marked, s_mf);
            lemma_same_entries(s_mc, s_begun);
            lemma_same_entries(s_mf, s_mc);
        } else {
            lemma_same_categories(s_marked, s0);
            lemma_same_feeds(s_marked, s0);
            lemma_same_entries(s_marked, s0);
        }
        assert(spec_cats_marked_upserted(s0, s_marked, Seq::empty(), user_id, now, is_full_sync));
        assert(spec_feeds_marked_upserted(s0, s_marked, Seq::empty(), user_id, now, is_full_sync));
        assert(spec_entries_marked_upserted(
            s0,
            s_marked,
            Seq::empty(),
            user_id,
            now,
            is_full_sync,
        ));
    }
    let categories = match remote.get_categories() {
        Ok(categories) => categories,
        Err(e) => {
            return Err(e);
        },
    };
    let category_ids = collect_category_ids(&categories);
    upsert_categories(store, &categories, now);
    let ghost s_cats = *store;
    let categories_pulled = categories.len() as u32;
    proof {
        lemma_same_feeds(s_cats, s_marked);
        lemma_same_entries(s_cats, s_marked);
        assert(spec_cats_marked_upserted(
            s0,
            s_cats,
            remote.categories->0@,
            user_id,
            now,
            is_full_sync,
        ));
    }
    let feeds = match remote.get_feeds() {
        Ok(feeds) => feeds,
        Err(e) => {
            return Err(e);
        },
    };
    let feed_ids = collect_feed_ids(&feeds);
    upsert_feeds(store, &feeds, now);
    let ghost s_feeds = *store;
    let feeds_pulled = feeds.len() as u32;
    proof {
        lemma_same_categories(s_feeds, s_cats);
        lemma_same_entries(s_feeds, s_cats);
        assert(spec_feeds_marked_upserted(
            s0,
            s_feeds,
            remote.feeds->0@,
            user_id,
            now,
            is_full_sync,
        ));
    }
    let changed_after: Option<i64> = if is_full_sync {
        None
    } else {
        sync_state.last_sync_at
    };
    let entries_pulled = match sync_entry_pages(store, remote, changed_after, now) {
        Ok(entries_pulled) => entries_pulled,
        Err(e) => {
            proof {
                lemma_same_entries(*store, s_feeds);
                lemma_same_categories(*store, s_feeds);
                lemma_same_feeds(*store, s_feeds);
            }
            return Err(e);
        },
    };
    let ghost s_pulled = *store;
    let ghost w = spec_window(remote.entries->0@, changed_after);
    proof {
        lemma_same_categories(s_pulled, s_feeds);
        lemma_same_feeds(s_pulled, s_feeds);
    }
    let ghost mut s_de = *store;
    let ghost mut s_df = *store;
    if is_full_sync {
        store.delete_stale_entries(user_id);
        proof {
            s_de = *store;
        }
        store.delete_stale_feeds(user_id);
        proof {
            s_df = *store;
        }
        store.delete_stale_categories(user_id);
        proof {
            lemma_same_categories(s_de, s_pulled);
            lemma_same_categories(s_df, s_de);
            lemma_same_feeds(s_de, s_pulled);
            lemma_same_entries(s_df, s_de);
            lemma_same_entries(*store, s_df);
            lemma_cats_full_reconciled(
                s0,
                s_marked,
                s_cats,
                *store,
                remote.categories->0@,
                user_id,
                now,
            );
            lemma_feeds_full_reconciled(
                s0,
                s_marked,
                s_feeds,
                *store,
                remote.feeds->0@,
                user_id,
                now,
            );
            lemma_entries_full_reconciled(s0, s_marked, s_pulled, *store, w, user_id, now);
        }
    } else {
        store.delete_removed_entries(user_id, sync_state.last_sync_at);
        proof {
            s_de = *store;
        }
        store.delete_removed_feeds(user_id, &feed_ids);
        proof {
            s_df = *store;
        }
        store.delete_removed_categories(user_id, &category_ids);
        proof {
            lemma_same_categories(s_de, s_pulled);
            lemma_same_categories(s_df, s_de);
            lemma_same_feeds(s_de, s_pulled);
            lemma_same_entries(s_df, s_de);
            lemma_same_entries(*store, s_df);
            lemma_cats_incremental_reconciled(
                s0,
                s_cats,
                *store,
                remote.categories->0@,
                category_ids@,
                user_id,
                now,
            );
            lemma_feeds_incremental_reconciled(
                s0,
                s_feeds,
                *store,
                remote.feeds->0@,
                feed_ids@,
                user_id,
                now,
            );
            lemma_entries_incremental_reconciled(
                s0,
                s_pulled,
                *store,
                w,
                user_id,
                sync_state.last_sync_at,
                now,
            );
        }
    }
    let ghost s_deleted = *store;
    store.record_sync_success(now);
    proof {
        let s1 = *store;
        let cats = remote.categories->0@;
        let fds = remote.feeds->0@;
        let st0 = spec_state0(s0);
        lemma_same_categories(s1, s_deleted);
        lemma_same_feeds(s1, s_deleted);
        lemma_same_entries(s1, s_deleted);
        assert(changed_after == spec_changed_after(st0));
        if is_full_sync {
            assert(spec_cats_reconciled(s0, s1, cats, user_id, now));
            assert(spec_feeds_reconciled(s0, s1, fds, user_id, now));
            assert(spec_entries_full_reconciled(s0, s1, w, user_id, now));
        } else {
            assert(spec_cats_reconciled(s0, s1, cats, user_id, now));
            assert(spec_feeds_reconciled(s0, s1, fds, user_id, now));
            assert(spec_entries_incremental(s0, s1, w, user_id, st0.last_sync_at, now));
        }
        assert(s1.sync_state == Some(
            SyncState {
                last_sync_at: Some(now),
                last_full_sync_at: if is_full_sync {
                    Some(now)
                } else {
                    st0.last_full_sync_at
                },
                sync_in_progress: false,
                sync_error: None,
                ..st0
            },
        ));
        assert(entries_pulled == spec_window(
            remote.entries->0@,
            spec_changed_after(st0),
        ).len() as u32);
    }
    Ok(SyncSummary { entries_pulled, entries_pushed: 0, feeds_pulled, categories_pulled })
}

/// The sync operation as the application invokes it: one run, with a
/// failure always recorded on the sync state row so the store never stays
/// marked in flight.
pub fn run_sync(store: &mut LocalStore, remote: &RemoteSnapshot, now: i64) -> (r: Result<
    SyncSummary,
    String,
>)
    requires
        old(store).wf(),
        remote.wf(),
    ensures
        final(store).wf(),
        r is Ok <==> remote.responsive(),
        remote.responsive() ==> spec_run_success(*old(store), *final(store), *remote, now)
            && r->Ok_0 == spec_run_summary(*remote, spec_state0(*old(store))),
        !remote.responsive() ==> spec_failed_tables(*old(store), *final(store), *remote, now)
            && final(store).sync_state == Some(
            SyncState {
                sync_in_progress: false,
                sync_error: Some(r->Err_0),
                ..spec_state0(*old(store))
            },
        ) && final(store).sync_queue == old(store).sync_queue,
{
    match sync_miniflux_impl(store, remote, now) {
        Ok(summary) => Ok(summary),
        Err(e) => {
            let message = e.clone();
            store.record_sync_failure(message);
            Err(e)
        },
    }
}

} // verus!
