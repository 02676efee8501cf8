//! Run-level guarantees of the sync engine, each proved from the contracts
//! of `run_sync` alone.

use vstd::prelude::*;

use crate::remote::{lemma_window_keys, spec_in_window, spec_window, RemoteSnapshot};
use crate::store::{
    spec_category_row, spec_entry_removed_after, spec_entry_row, spec_feed_row, LocalStore,
};
use crate::sync::{
    spec_changed_after, spec_entry_mid, spec_run_success, spec_state0,
};
use crate::table::{by_key, has_key, key_index, keys_unique, lemma_by_key_carries};

verus! {

/// Full-sync completeness: after a successful full sync, every entity the
/// remote reports exists locally exactly once, mirrored and marked synced,
/// and no row of the synced user is left stale.
pub proof fn lemma_full_sync_completeness(
    s0: LocalStore,
    s1: LocalStore,
    remote: RemoteSnapshot,
    now: i64,
)
    requires
        remote.wf(),
        remote.responsive(),
        spec_state0(s0).last_full_sync_at is None,
        spec_run_success(s0, s1, remote, now),
    ensures
        forall|id: i64|
            has_key(remote.categories->0@, id) ==> s1.has_cat(id) && s1.cat(id)
                == spec_category_row(by_key(remote.categories->0@, id), now),
        forall|id: i64|
            has_key(remote.feeds->0@, id) ==> s1.has_feed(id) && s1.feed(id) == spec_feed_row(
                by_key(remote.feeds->0@, id),
                now,
            ),
        forall|id: i64|
            has_key(remote.entries->0@, id) ==> s1.has_entry(id) && s1.entry(id)
                == spec_entry_row(by_key(remote.entries->0@, id), now),
        forall|id: i64|
            s1.has_cat(id) && s1.cat(id).user_id == remote.user->0.id ==> s1.cat(
                id,
            ).sync_status is Synced,
        forall|id: i64|
            s1.has_feed(id) && s1.feed(id).user_id == remote.user->0.id ==> s1.feed(
                id,
            ).sync_status is Synced,
        forall|id: i64|
            s1.has_entry(id) && s1.entry(id).user_id == remote.user->0.id ==> s1.entry(
                id,
            ).sync_status is Synced,
{
    let u = remote.user->0.id;
    let w = spec_window(remote.entries->0@, None);
    lemma_window_keys(remote.entries->0@, None);
    assert(spec_changed_after(spec_state0(s0)) == Option::<i64>::None);
    assert forall|id: i64| has_key(remote.entries->0@, id) implies s1.has_entry(id) && s1.entry(
        id,
    ) == spec_entry_row(by_key(remote.entries->0@, id), now) by {
        assert(has_key(w, id));
        assert(by_key(w, id) == by_key(remote.entries->0@, id));
    }
    assert forall|id: i64|
        s1.has_cat(id) && s1.cat(id).user_id == remote.user->0.id implies s1.cat(
        id,
    ).sync_status is Synced by {
        if !has_key(remote.categories->0@, id) {
            assert(s1.cat(id) == s0.cat(id));
        }
    }
    assert forall|id: i64|
        s1.has_feed(id) && s1.feed(id).user_id == remote.user->0.id implies s1.feed(
        id,
    ).sync_status is Synced by {
        if !has_key(remote.feeds->0@, id) {
            assert(s1.feed(id) == s0.feed(id));
        }
    }
    assert forall|id: i64|
        s1.has_entry(id) && s1.entry(id).user_id == remote.user->0.id implies s1.entry(
        id,
    ).sync_status is Synced by {
        if !has_key(w, id) {
            assert(s1.entry(id) == s0.entry(id));
        }
    }
}

/// Full-sync tombstoning: an entity of the synced user present locally
/// before a full sync but no longer reported by the remote is gone after
/// the run.
pub proof fn lemma_full_sync_tombstone(
    s0: LocalStore,
    s1: LocalStore,
    remote: RemoteSnapshot,
    now: i64,
)
    requires
        remote.wf(),
        remote.responsive(),
        spec_state0(s0).last_full_sync_at is None,
        spec_run_success(s0, s1, remote, now),
    ensures
        forall|id: i64|
            s0.has_cat(id) && s0.cat(id).user_id == remote.user->0.id && !has_key(
                remote.categories->0@,
                id,
            ) ==> !s1.has_cat(id),
        forall|id: i64|
            s0.has_feed(id) && s0.feed(id).user_id == remote.user->0.id && !has_key(
                remote.feeds->0@,
                id,
            ) ==> !s1.has_feed(id),
        forall|id: i64|
            s0.has_entry(id) && s0.entry(id).user_id == remote.user->0.id && !has_key(
                remote.entries->0@,
                id,
            ) ==> !s1.has_entry(id),
{
    let w = spec_window(remote.entries->0@, None);
    lemma_window_keys(remote.entries->0@, None);
    assert(spec_changed_after(spec_state0(s0)) == Option::<i64>::None);
    assert forall|id: i64|
        s0.has_entry(id) && s0.entry(id).user_id == remote.user->0.id && !has_key(
            remote.entries->0@,
            id,
        ) implies !s1.has_entry(id) by {
        assert(!has_key(w, id));
    }
}

/// Incremental id-set deletion: after a successful incremental sync the
/// feeds of the synced user are exactly the reported id-set — a feed whose
/// id the remote no longer names is deleted, one still named survives, and
/// other users' feeds are untouched. Categories behave alike.
pub proof fn lemma_incremental_id_set_deletion(
    s0: LocalStore,
    s1: LocalStore,
    remote: RemoteSnapshot,
    now: i64,
)
    requires
        remote.wf(),
        remote.responsive(),
        spec_state0(s0).last_full_sync_at is Some,
        spec_run_success(s0, s1, remote, now),
    ensures
        forall|id: i64|
            s1.has_feed(id) <==> has_key(remote.feeds->0@, id) || (s0.has_feed(id) && s0.feed(
                id,
            ).user_id != remote.user->0.id),
        forall|id: i64|
            s0.has_feed(id) && s0.feed(id).user_id == remote.user->0.id && !has_key(
                remote.feeds->0@,
                id,
            ) ==> !s1.has_feed(id),
        forall|id: i64|
            s0.has_feed(id) && s0.feed(id).user_id != remote.user->0.id && !has_key(
                remote.feeds->0@,
                id,
            ) ==> s1.has_feed(id) && s1.feed(id) == s0.feed(id),
        forall|id: i64|
            s1.has_cat(id) <==> has_key(remote.categories->0@, id) || (s0.has_cat(id) && s0.cat(
                id,
            ).user_id != remote.user->0.id),
{
}

/// Incremental entry removal is signal-driven, not set-driven: an entry the
/// server reports `removed` with a change at or after the previous sync
/// boundary is deleted, while an entry that merely fell outside the changed
/// window keeps its row untouched.
pub proof fn lemma_incremental_removal_signal_driven(
    s0: LocalStore,
    s1: LocalStore,
    remote: RemoteSnapshot,
    now: i64,
    b: i64,
)
    requires
        remote.wf(),
        remote.responsive(),
        spec_state0(s0).last_full_sync_at is Some,
        spec_state0(s0).last_sync_at == Some(b),
        spec_run_success(s0, s1, remote, now),
    ensures
        forall|id: i64|
            has_key(spec_window(remote.entries->0@, Some(b)), id) && ({
                let e = by_key(spec_window(remote.entries->0@, Some(b)), id);
                e.user_id == remote.user->0.id && e.status is Removed && e.changed_at is Some
                    && e.changed_at->0 >= b
            }) ==> !s1.has_entry(id),
        forall|id: i64|
            s0.has_entry(id) && !has_key(spec_window(remote.entries->0@, Some(b)), id) && !(
            s0.entry(id).user_id == remote.user->0.id && s0.entry(id).status is Removed && s0.entry(
                id,
            ).changed_at is Some && s0.entry(id).changed_at->0 >= b) ==> s1.has_entry(id)
                && s1.entry(id) == s0.entry(id),
{
    let u = remote.user->0.id;
    let w = spec_window(remote.entries->0@, Some(b));
    assert(spec_changed_after(spec_state0(s0)) == Some(b));
    assert forall|id: i64|
        has_key(w, id) && ({
            let e = by_key(w, id);
            e.user_id == u && e.status is Removed && e.changed_at is Some && e.changed_at->0
                >= b
        }) implies !s1.has_entry(id) by {
        assert(spec_entry_mid(s0, w, id, now) == spec_entry_row(by_key(w, id), now));
    }
    assert forall|id: i64|
        s0.has_entry(id) && !has_key(w, id) && !(s0.entry(id).user_id == u && s0.entry(
            id,
        ).status is Removed && s0.entry(id).changed_at is Some && s0.entry(id).changed_at->0
            >= b) implies s1.has_entry(id) && s1.entry(id) == s0.entry(id) by {
        assert(spec_entry_mid(s0, w, id, now) == s0.entry(id));
    }
}

/// First-full-sync latch: the first successful run fixes
/// `last_full_sync_at` to that run's timestamp, and a later successful run
/// advances `last_sync_at` but leaves the latch untouched.
pub proof fn lemma_first_full_sync_latch(
    s0: LocalStore,
    s1: LocalStore,
    s2: LocalStore,
    r1: RemoteSnapshot,
    r2: RemoteSnapshot,
    t1: i64,
    t2: i64,
)
    requires
        r1.responsive(),
        r2.responsive(),
        spec_state0(s0).last_full_sync_at is None,
        spec_run_success(s0, s1, r1, t1),
        spec_run_success(s1, s2, r2, t2),
    ensures
        s1.sync_state is Some,
        s1.sync_state->0.last_full_sync_at == Some(t1),
        s1.sync_state->0.last_sync_at == Some(t1),
        s2.sync_state is Some,
        s2.sync_state->0.last_full_sync_at == Some(t1),
        s2.sync_state->0.last_sync_at == Some(t2),
{
}

/// Idempotence: a second run against an unchanged remote, after a first
/// successful full sync, changes no mirrored row. The remote's rows must
/// carry their own bookkeeping timestamps (otherwise the sync clock is
/// mirrored in their place), and every reported change must predate the
/// first run.
pub proof fn lemma_sync_idempotent(
    s0: LocalStore,
    s1: LocalStore,
    s2: LocalStore,
    remote: RemoteSnapshot,
    t1: i64,
    t2: i64,
)
    requires
        remote.wf(),
        remote.responsive(),
        spec_state0(s0).last_full_sync_at is None,
        spec_run_success(s0, s1, remote, t1),
        spec_run_success(s1, s2, remote, t2),
        forall|j: int|
            0 <= j < remote.categories->0@.len() ==> remote.categories->0@[j].created_at is Some
                && remote.categories->0@[j].updated_at is Some,
        forall|j: int|
            0 <= j < remote.feeds->0@.len() ==> remote.feeds->0@[j].created_at is Some
                && remote.feeds->0@[j].updated_at is Some,
        forall|j: int| 0 <= j < remote.entries->0@.len() ==> remote.entries->0@[j].created_at is Some,
        forall|j: int|
            0 <= j < remote.entries->0@.len() && remote.entries->0@[j].changed_at is Some
                ==> remote.entries->0@[j].changed_at->0 < t1,
    ensures
        forall|id: i64| s2.has_cat(id) <==> s1.has_cat(id),
        forall|id: i64| s1.has_cat(id) ==> s2.cat(id) == s1.cat(id),
        forall|id: i64| s2.has_feed(id) <==> s1.has_feed(id),
        forall|id: i64| s1.has_feed(id) ==> s2.feed(id) == s1.feed(id),
        forall|id: i64| s2.has_entry(id) <==> s1.has_entry(id),
        forall|id: i64| s1.has_entry(id) ==> s2.entry(id) == s1.entry(id),
{
    let u = remote.user->0.id;
    let cats = remote.categories->0@;
    let fds = remote.feeds->0@;
    let ents = remote.entries->0@;
    let st0 = spec_state0(s0);
    let st1 = spec_state0(s1);
    assert(st1.last_full_sync_at == Some(t1));
    assert(st1.last_sync_at == Some(t1));
    let w1 = spec_window(ents, None);
    let w2 = spec_window(ents, Some(t1));
    assert(spec_changed_after(st0) == Option::<i64>::None);
    assert(spec_changed_after(st1) == Some(t1));
    lemma_window_keys(ents, None);
    lemma_window_keys(ents, Some(t1));
    assert forall|id: i64| !has_key(w2, id) by {
        if has_key(w2, id) {
            assert(keys_unique(ents));
            lemma_window_keys(ents, Some(t1));
            assert(has_key(spec_window(ents, Some(t1)), id));
            assert(has_key(ents, id));
            assert(spec_in_window(by_key(ents, id), Some(t1)));
            lemma_by_key_carries(ents, id);
            let j = key_index(ents, id);
            assert(ents[j].changed_at->0 < t1);
        }
    }
    assert forall|id: i64| s2.has_cat(id) <==> s1.has_cat(id) by {
        if !has_key(cats, id) && s1.has_cat(id) {
            assert(s1.cat(id) == s0.cat(id));
        }
    }
    assert forall|id: i64| s1.has_cat(id) implies s2.cat(id) == s1.cat(id) by {
        if has_key(cats, id) {
            lemma_by_key_carries(cats, id);
            let j = key_index(cats, id);
            assert(cats[j].created_at is Some && cats[j].updated_at is Some);
            assert(spec_category_row(by_key(cats, id), t2) == spec_category_row(
                by_key(cats, id),
                t1,
            ));
        } else {
            assert(s2.cat(id) == s1.cat(id));
        }
    }
    assert forall|id: i64| s2.has_feed(id) <==> s1.has_feed(id) by {
        if !has_key(fds, id) && s1.has_feed(id) {
            assert(s1.feed(id) == s0.feed(id));
        }
    }
    assert forall|id: i64| s1.has_feed(id) implies s2.feed(id) == s1.feed(id) by {
        if has_key(fds, id) {
            lemma_by_key_carries(fds, id);
            let j = key_index(fds, id);
            assert(fds[j].created_at is Some && fds[j].updated_at is Some);
            assert(spec_feed_row(by_key(fds, id), t2) == spec_feed_row(by_key(fds, id), t1));
        } else {
            assert(s2.feed(id) == s1.feed(id));
        }
    }
    assert forall|id: i64| s2.has_entry(id) <==> s1.has_entry(id) by {
        assert(!has_key(w2, id));
        if s1.has_entry(id) {
            assert(spec_entry_mid(s1, w2, id, t2) == s1.entry(id));
            if has_key(w1, id) {
                assert(s1.entry(id) == spec_entry_row(by_key(w1, id), t1));
                assert(by_key(w1, id) == by_key(ents, id));
                lemma_by_key_carries(ents, id);
                let j = key_index(ents, id);
                if ents[j].changed_at is Some {
                    assert(ents[j].changed_at->0 < t1);
                }
                assert(!spec_entry_removed_after(s1.entry(id), u, t1));
            } else {
                assert(s1.entry(id) == s0.entry(id));
                assert(s0.has_entry(id) && s0.entry(id).user_id != u);
                assert(!spec_entry_removed_after(s1.entry(id), u, t1));
            }
        }
    }
    assert forall|id: i64| s1.has_entry(id) implies s2.entry(id) == s1.entry(id) by {
        assert(!has_key(w2, id));
        assert(s2.entry(id) == spec_entry_mid(s1, w2, id, t2));
    }
}

} // verus!
