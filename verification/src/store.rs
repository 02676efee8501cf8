//! The local store: an in-memory model of the embedded relational database
//! that mirrors the remote server's content.
//!
//! Three keyed tables (categories, feeds, entries) plus the singleton sync
//! state row and the write queue. Every reconciliation step of the sync
//! engine — upsert on conflict, stale marking, stale deletion, id-set
//! deletion and removed-signal deletion — is a verified operation here, with
//! a contract that pins down exactly which rows remain and what they hold.

use vstd::pervasive::VecAdditionalExecFns;
use vstd::prelude::*;

use crate::miniflux::{clone_opt_string, Category, Entry, EntryStatus, Feed};
use crate::table::{
    by_key, has_key, key_index, keys_unique, lemma_by_key_carries, lemma_key_witness,
    lemma_pointwise_keys, lemma_push_key, lemma_update_key, Keyed,
};

verus! {

/// Whether a mirrored row has been reconfirmed by the current run.
///
/// `Stale` is a transient marker used only inside a full sync: everything is
/// assumed gone until the remote reconfirms it.
#[derive(Debug, Clone, Copy, PartialEq, Eq, Structural)]
pub enum SyncStatus {
    Synced,
    Stale,
}

/// A mirrored category row.
#[derive(Debug)]
pub struct CategoryRow {
    pub id: i64,
    pub user_id: i64,
    pub title: String,
    pub hide_globally: bool,
    pub created_at: i64,
    pub updated_at: i64,
    pub sync_status: SyncStatus,
}

/// A mirrored feed row; the weak reference to the category is flattened to
/// its id, every configuration field is mirrored verbatim.
#[derive(Debug)]
pub struct FeedRow {
    pub id: i64,
    pub user_id: i64,
    pub title: String,
    pub site_url: String,
    pub feed_url: String,
    pub category_id: Option<i64>,
    pub checked_at: Option<i64>,
    pub etag_header: Option<String>,
    pub last_modified_header: Option<String>,
    pub parsing_error_message: Option<String>,
    pub parsing_error_count: i32,
    pub scraper_rules: Option<String>,
    pub rewrite_rules: Option<String>,
    pub crawler: bool,
    pub blocklist_rules: Option<String>,
    pub keeplist_rules: Option<String>,
    pub user_agent: Option<String>,
    pub username: Option<String>,
    pub password: Option<String>,
    pub disabled: bool,
    pub ignore_http_cache: bool,
    pub fetch_via_proxy: bool,
    pub no_media_player: bool,
    pub allow_self_signed_certificates: bool,
    pub urlrewrite_rules: Option<String>,
    pub cookie: Option<String>,
    pub apprise_service_urls: Option<String>,
    pub hide_globally: bool,
    pub created_at: i64,
    pub updated_at: i64,
    pub sync_status: SyncStatus,
}

/// A mirrored entry row.
#[derive(Debug)]
pub struct EntryRow {
    pub id: i64,
    pub user_id: i64,
    pub feed_id: i64,
    pub title: String,
    pub url: String,
    pub comments_url: Option<String>,
    pub author: Option<String>,
    pub content: Option<String>,
    pub hash: String,
    pub published_at: i64,
    pub created_at: i64,
    pub changed_at: Option<i64>,
    pub status: EntryStatus,
    pub share_code: Option<String>,
    pub starred: bool,
    pub reading_time: Option<i32>,
    pub sync_status: SyncStatus,
}

/// The singleton sync state row: when the last sync and the last full sync
/// completed, whether a run is in flight, and the last error if any.
#[derive(Debug)]
pub struct SyncState {
    pub id: i64,
    pub last_sync_at: Option<i64>,
    pub last_full_sync_at: Option<i64>,
    pub sync_in_progress: bool,
    pub sync_error: Option<String>,
    pub sync_version: i64,
}

/// A queued offline write, recorded but not exercised by the sync run.
#[derive(Debug)]
pub struct SyncQueueRow {
    pub id: i64,
    pub operation_type: String,
    pub entity_type: String,
    pub entity_id: i64,
    pub payload: String,
    pub retry_count: i64,
    pub status: String,
    pub created_at: i64,
    pub updated_at: i64,
}

impl Keyed for CategoryRow {
    open spec fn key(self) -> i64 {
        self.id
    }
}

impl Keyed for FeedRow {
    open spec fn key(self) -> i64 {
        self.id
    }
}

impl Keyed for EntryRow {
    open spec fn key(self) -> i64 {
        self.id
    }
}

impl Clone for CategoryRow {
    fn clone(&self) -> (r: Self)
        ensures
            r == *self,
    {
        CategoryRow {
            id: self.id,
            user_id: self.user_id,
            title: self.title.clone(),
            hide_globally: self.hide_globally,
            created_at: self.created_at,
            updated_at: self.updated_at,
            sync_status: self.sync_status,
        }
    }
}

impl Clone for FeedRow {
    fn clone(&self) -> (r: Self)
        ensures
            r == *self,
    {
        FeedRow {
            id: self.id,
            user_id: self.user_id,
            title: self.title.clone(),
            site_url: self.site_url.clone(),
            feed_url: self.feed_url.clone(),
            category_id: self.category_id,
            checked_at: self.checked_at,
            etag_header: clone_opt_string(&self.etag_header),
            last_modified_header: clone_opt_string(&self.last_modified_header),
            parsing_error_message: clone_opt_string(&self.parsing_error_message),
            parsing_error_count: self.parsing_error_count,
            scraper_rules: clone_opt_string(&self.scraper_rules),
            rewrite_rules: clone_opt_string(&self.rewrite_rules),
            crawler: self.crawler,
            blocklist_rules: clone_opt_string(&self.blocklist_rules),
            keeplist_rules: clone_opt_string(&self.keeplist_rules),
            user_agent: clone_opt_string(&self.user_agent),
            username: clone_opt_string(&self.username),
            password: clone_opt_string(&self.password),
            disabled: self.disabled,
            ignore_http_cache: self.ignore_http_cache,
            fetch_via_proxy: self.fetch_via_proxy,
            no_media_player: self.no_media_player,
            allow_self_signed_certificates: self.allow_self_signed_certificates,
            urlrewrite_rules: clone_opt_string(&self.urlrewrite_rules),
            cookie: clone_opt_string(&self.cookie),
            apprise_service_urls: clone_opt_string(&self.apprise_service_urls),
            hide_globally: self.hide_globally,
            created_at: self.created_at,
            updated_at: self.updated_at,
            sync_status: self.sync_status,
        }
    }
}

impl Clone for EntryRow {
    fn clone(&self) -> (r: Self)
        ensures
            r == *self,
    {
        EntryRow {
            id: self.id,
            user_id: self.user_id,
            feed_id: self.feed_id,
            title: self.title.clone(),
            url: self.url.clone(),
            comments_url: clone_opt_string(&self.comments_url),
            author: clone_opt_string(&self.author),
            content: clone_opt_string(&self.content),
            hash: self.hash.clone(),
            published_at: self.published_at,
            created_at: self.created_at,
            changed_at: self.changed_at,
            status: self.status,
            share_code: clone_opt_string(&self.share_code),
            starred: self.starred,
            reading_time: self.reading_time,
            sync_status: self.sync_status,
        }
    }
}

impl Clone for SyncState {
    fn clone(&self) -> (r: Self)
        ensures
            r == *self,
    {
        SyncState {
            id: self.id,
            last_sync_at: self.last_sync_at,
            last_full_sync_at: self.last_full_sync_at,
            sync_in_progress: self.sync_in_progress,
            sync_error: clone_opt_string(&self.sync_error),
            sync_version: self.sync_version,
        }
    }
}

/// The timestamp itself where the remote supplied one, the current sync
/// timestamp where it did not.
pub open spec fn or_now(o: Option<i64>, now: i64) -> i64 {
    match o {
        Some(t) => t,
        None => now,
    }
}

/// The row a remote category is mirrored to: every column overwritten by the
/// incoming value, missing timestamps falling back to the sync timestamp,
/// and the row unconditionally marked `Synced`.
pub open spec fn spec_category_row(c: Category, now: i64) -> CategoryRow {
    CategoryRow {
        id: c.id,
        user_id: c.user_id,
        title: c.title,
        hide_globally: c.hide_globally,
        created_at: or_now(c.created_at, now),
        updated_at: or_now(c.updated_at, now),
        sync_status: SyncStatus::Synced,
    }
}

/// The row a remote feed is mirrored to.
pub open spec fn spec_feed_row(f: Feed, now: i64) -> FeedRow {
    FeedRow {
        id: f.id,
        user_id: f.user_id,
        title: f.title,
        site_url: f.site_url,
        feed_url: f.feed_url,
        category_id: match f.category {
            Some(c) => Some(c.id),
            None => None,
        },
        checked_at: f.checked_at,
        etag_header: f.etag_header,
        last_modified_header: f.last_modified_header,
        parsing_error_message: f.parsing_error_message,
        parsing_error_count: f.parsing_error_count,
        scraper_rules: f.scraper_rules,
        rewrite_rules: f.rewrite_rules,
        crawler: f.crawler,
        blocklist_rules: f.blocklist_rules,
        keeplist_rules: f.keeplist_rules,
        user_agent: f.user_agent,
        username: f.username,
        password: f.password,
        disabled: f.disabled,
        ignore_http_cache: f.ignore_http_cache,
        fetch_via_proxy: f.fetch_via_proxy,
        no_media_player: f.no_media_player,
        allow_self_signed_certificates: f.allow_self_signed_certificates,
        urlrewrite_rules: f.urlrewrite_rules,
        cookie: f.cookie,
        apprise_service_urls: f.apprise_service_urls,
        hide_globally: f.hide_globally,
        created_at: or_now(f.created_at, now),
        updated_at: or_now(f.updated_at, now),
        sync_status: SyncStatus::Synced,
    }
}

/// The row a remote entry is mirrored to.
pub open spec fn spec_entry_row(e: Entry, now: i64) -> EntryRow {
    EntryRow {
        id: e.id,
        user_id: e.user_id,
        feed_id: e.feed_id,
        title: e.title,
        url: e.url,
        comments_url: e.comments_url,
        author: e.author,
        content: e.content,
        hash: e.hash,
        published_at: e.published_at,
        created_at: or_now(e.created_at, now),
        changed_at: e.changed_at,
        status: e.status,
        share_code: e.share_code,
        starred: e.starred,
        reading_time: e.reading_time,
        sync_status: SyncStatus::Synced,
    }
}

/// Mirrors a remote category into its row form.
pub fn category_row(c: &Category, now: i64) -> (r: CategoryRow)
    ensures
        r == spec_category_row(*c, now),
{
    CategoryRow {
        id: c.id,
        user_id: c.user_id,
        title: c.title.clone(),
        hide_globally: c.hide_globally,
        created_at: match c.created_at {
            Some(t) => t,
            None => now,
        },
        updated_at: match c.updated_at {
            Some(t) => t,
            None => now,
        },
        sync_status: SyncStatus::Synced,
    }
}

/// Mirrors a remote feed into its row form.
pub fn feed_row(f: &Feed, now: i64) -> (r: FeedRow)
    ensures
        r == spec_feed_row(*f, now),
{
    FeedRow {
        id: f.id,
        user_id: f.user_id,
        title: f.title.clone(),
        site_url: f.site_url.clone(),
        feed_url: f.feed_url.clone(),
        category_id: match &f.category {
            Some(c) => Some(c.id),
            None => None,
        },
        checked_at: f.checked_at,
        etag_header: clone_opt_string(&f.etag_header),
        last_modified_header: clone_opt_string(&f.last_modified_header),
        parsing_error_message: clone_opt_string(&f.parsing_error_message),
        parsing_error_count: f.parsing_error_count,
        scraper_rules: clone_opt_string(&f.scraper_rules),
        rewrite_rules: clone_opt_string(&f.rewrite_rules),
        crawler: f.crawler,
        blocklist_rules: clone_opt_string(&f.blocklist_rules),
        keeplist_rules: clone_opt_string(&f.keeplist_rules),
        user_agent: clone_opt_string(&f.user_agent),
        username: clone_opt_string(&f.username),
        password: clone_opt_string(&f.password),
        disabled: f.disabled,
        ignore_http_cache: f.ignore_http_cache,
        fetch_via_proxy: f.fetch_via_proxy,
        no_media_player: f.no_media_player,
        allow_self_signed_certificates: f.allow_self_signed_certificates,
        urlrewrite_rules: clone_opt_string(&f.urlrewrite_rules),
        cookie: clone_opt_string(&f.cookie),
        apprise_service_urls: clone_opt_string(&f.apprise_service_urls),
        hide_globally: f.hide_globally,
        created_at: match f.created_at {
            Some(t) => t,
            None => now,
        },
        updated_at: match f.updated_at {
            Some(t) => t,
            None => now,
        },
        sync_status: SyncStatus::Synced,
    }
}

/// Mirrors a remote entry into its row form.
pub fn entry_row(e: &Entry, now: i64) -> (r: EntryRow)
    ensures
        r == spec_entry_row(*e, now),
{
    EntryRow {
        id: e.id,
        user_id: e.user_id,
        feed_id: e.feed_id,
        title: e.title.clone(),
        url: e.url.clone(),
        comments_url: clone_opt_string(&e.comments_url),
        author: clone_opt_string(&e.author),
        content: clone_opt_string(&e.content),
        hash: e.hash.clone(),
        published_at: e.published_at,
        created_at: match e.created_at {
            Some(t) => t,
            None => now,
        },
        changed_at: e.changed_at,
        status: e.status,
        share_code: clone_opt_string(&e.share_code),
        starred: e.starred,
        reading_time: e.reading_time,
        sync_status: SyncStatus::Synced,
    }
}

/// The row as a full sync's opening step leaves it: this user's rows are
/// marked stale, other users' rows are untouched.
pub open spec fn spec_stale_cat(r: CategoryRow, user_id: i64) -> CategoryRow {
    if r.user_id == user_id {
        CategoryRow { sync_status: SyncStatus::Stale, ..r }
    } else {
        r
    }
}

/// The row belongs to this user and was never reconfirmed during the run.
pub open spec fn spec_cat_stale_for(r: CategoryRow, user_id: i64) -> bool {
    r.user_id == user_id && r.sync_status is Stale
}

/// The row survives id-set reconciliation: it belongs to another user, or
/// the remote still reports its id.
pub open spec fn spec_cat_kept_remote(r: CategoryRow, user_id: i64, ids: Seq<i64>) -> bool {
    r.user_id != user_id || ids.contains(r.id)
}

/// The feed-row analogue of the stale marking.
pub open spec fn spec_stale_feed(r: FeedRow, user_id: i64) -> FeedRow {
    if r.user_id == user_id {
        FeedRow { sync_status: SyncStatus::Stale, ..r }
    } else {
        r
    }
}

/// The feed row belongs to this user and was never reconfirmed.
pub open spec fn spec_feed_stale_for(r: FeedRow, user_id: i64) -> bool {
    r.user_id == user_id && r.sync_status is Stale
}

/// The feed row survives id-set reconciliation.
pub open spec fn spec_feed_kept_remote(r: FeedRow, user_id: i64, ids: Seq<i64>) -> bool {
    r.user_id != user_id || ids.contains(r.id)
}

/// The entry-row analogue of the stale marking.
pub open spec fn spec_stale_entry(r: EntryRow, user_id: i64) -> EntryRow {
    if r.user_id == user_id {
        EntryRow { sync_status: SyncStatus::Stale, ..r }
    } else {
        r
    }
}

/// The entry row belongs to this user and was never reconfirmed.
pub open spec fn spec_entry_stale_for(r: EntryRow, user_id: i64) -> bool {
    r.user_id == user_id && r.sync_status is Stale
}

/// The entry row carries the explicit deletion signal of an incremental
/// sync: it belongs to this user, the server reported it removed, and it
/// changed at or after the previous sync boundary.
pub open spec fn spec_entry_removed_after(r: EntryRow, user_id: i64, boundary: i64) -> bool {
    r.user_id == user_id && r.status is Removed && r.changed_at is Some && r.changed_at->0
        >= boundary
}

/// Membership test against a plain id list.
pub fn contains_id(ids: &Vec<i64>, id: i64) -> (b: bool)
    ensures
        b == ids@.contains(id),
{
    let n = ids.len();
    let mut i: usize = 0;
    while i < n
        invariant
            i <= n,
            n == ids@.len(),
            forall|j: int| 0 <= j < i ==> ids@[j] != id,
        decreases n - i,
    {
        if ids[i] == id {
            return true;
        }
        i += 1;
    }
    false
}

/// The local store.
pub struct LocalStore {
    pub categories: Vec<CategoryRow>,
    pub feeds: Vec<FeedRow>,
    pub entries: Vec<EntryRow>,
    pub sync_state: Option<SyncState>,
    pub sync_queue: Vec<SyncQueueRow>,
}

impl LocalStore {
    /// Well-formedness: each table is keyed by a distinct server-assigned id.
    pub open spec fn wf(self) -> bool {
        &&& keys_unique(self.categories@)
        &&& keys_unique(self.feeds@)
        &&& keys_unique(self.entries@)
    }

    /// A category row with this id exists.
    pub open spec fn has_cat(self, id: i64) -> bool {
        has_key(self.categories@, id)
    }

    /// The category row with this id.
    pub open spec fn cat(self, id: i64) -> CategoryRow {
        by_key(self.categories@, id)
    }

    /// A feed row with this id exists.
    pub open spec fn has_feed(self, id: i64) -> bool {
        has_key(self.feeds@, id)
    }

    /// The feed row with this id.
    pub open spec fn feed(self, id: i64) -> FeedRow {
        by_key(self.feeds@, id)
    }

    /// An entry row with this id exists.
    pub open spec fn has_entry(self, id: i64) -> bool {
        has_key(self.entries@, id)
    }

    /// The entry row with this id.
    pub open spec fn entry(self, id: i64) -> EntryRow {
        by_key(self.entries@, id)
    }

    /// Index of the category row keyed by `id`, if any.
    fn find_category(&self, id: i64) -> (r: Option<usize>)
        ensures
            match r {
                Some(i) => i < self.categories@.len() && self.categories@[i as int].id == id,
                None => forall|j: int|
                    0 <= j < self.categories@.len() ==> self.categories@[j].id != id,
            },
    {
        let n = self.categories.len();
        let mut i: usize = 0;
        while i < n
            invariant
                i <= n,
                n == self.categories@.len(),
                forall|j: int| 0 <= j < i ==> self.categories@[j].id != id,
            decreases n - i,
        {
            if self.categories[i].id == id {
                return Some(i);
            }
            i += 1;
        }
        None
    }

    /// Inserts the row, or overwrites the row already keyed by its id: the
    /// update-on-conflict semantics of the mirrored tables.
    pub fn upsert_category_row(&mut self, row: CategoryRow)
        requires
            old(self).wf(),
        ensures
            final(self).wf(),
            forall|id: i64| final(self).has_cat(id) <==> old(self).has_cat(id) || id == row.id,
            final(self).cat(row.id) == row,
            forall|id: i64|
                id != row.id && old(self).has_cat(id) ==> final(self).cat(id) == old(self).cat(id),
            final(self).feeds == old(self).feeds,
            final(self).entries == old(self).entries,
            final(self).sync_state == old(self).sync_state,
            final(self).sync_queue == old(self).sync_queue,
    {
        match self.find_category(row.id) {
            Some(i) => {
                proof {
                    lemma_key_witness(self.categories@, i as int);
                    lemma_update_key(self.categories@, i as int, row);
                }
                self.categories.set(i, row);
            },
            None => {
                proof {
                    assert(!has_key(self.categories@, row.id)) by {
                        if has_key(self.categories@, row.id) {
                            let j = key_index(self.categories@, row.id);
                            lemma_by_key_carries(self.categories@, row.id);
                        }
                    }
                    lemma_push_key(self.categories@, row);
                }
                self.categories.push(row);
            },
        }
    }

    /// Marks every category row of this user stale: the start of a full
    /// sync, where nothing counts as confirmed yet.
    pub fn mark_categories_stale(&mut self, user_id: i64)
        requires
            old(self).wf(),
        ensures
            final(self).wf(),
            final(self).categories@.len() == old(self).categories@.len(),
            forall|j: int|
                0 <= j < final(self).categories@.len() ==> final(self).categories@[j] == spec_stale_cat(
                    old(self).categories@[j],
                    user_id,
                ),
            forall|id: i64| final(self).has_cat(id) <==> old(self).has_cat(id),
            forall|id: i64|
                old(self).has_cat(id) ==> final(self).cat(id) == spec_stale_cat(
                    old(self).cat(id),
                    user_id,
                ),
            final(self).feeds == old(self).feeds,
            final(self).entries == old(self).entries,
            final(self).sync_state == old(self).sync_state,
            final(self).sync_queue == old(self).sync_queue,
    {
        let n = self.categories.len();
        let mut i: usize = 0;
        while i < n
            invariant
                i <= n,
                n == self.categories@.len(),
                forall|j: int|
                    0 <= j < i ==> self.categories@[j] == spec_stale_cat(
                        old(self).categories@[j],
                        user_id,
                    ),
                forall|j: int| i <= j < n ==> self.categories@[j] == old(self).categories@[j],
                self.feeds == old(self).feeds,
                self.entries == old(self).entries,
                self.sync_state == old(self).sync_state,
                self.sync_queue == old(self).sync_queue,
            decreases n - i,
        {
            if self.categories[i].user_id == user_id {
                let row = self.categories[i].clone();
                self.categories.set(i, CategoryRow { sync_status: SyncStatus::Stale, ..row });
            }
            i += 1;
        }
        proof {
            assert forall|j: int| 0 <= j < self.categories@.len() implies self.categories@[j].key()
                == old(self).categories@[j].key() by {}
            lemma_pointwise_keys(old(self).categories@, self.categories@);
            assert forall|id: i64| old(self).has_cat(id) implies self.cat(id) == spec_stale_cat(
                old(self).cat(id),
                user_id,
            ) by {
                lemma_by_key_carries(old(self).categories@, id);
            }
        }
    }

    /// Deletes every category row of this user still marked stale: what the
    /// remote did not reconfirm during a full sync is gone.
    pub fn delete_stale_categories(&mut self, user_id: i64)
        requires
            old(self).wf(),
        ensures
            final(self).wf(),
            forall|id: i64|
                final(self).has_cat(id) <==> old(self).has_cat(id) && !spec_cat_stale_for(
                    old(self).cat(id),
                    user_id,
                ),
            forall|id: i64| final(self).has_cat(id) ==> final(self).cat(id) == old(self).cat(id),
            final(self).feeds == old(self).feeds,
            final(self).entries == old(self).entries,
            final(self).sync_state == old(self).sync_state,
            final(self).sync_queue == old(self).sync_queue,
    {
        let mut kept: Vec<CategoryRow> = Vec::new();
        let n = self.categories.len();
        let mut i: usize = 0;
        while i < n
            invariant
                i <= n,
                n == self.categories@.len(),
                *self == *old(self),
                old(self).wf(),
                keys_unique(kept@),
                forall|j: int|
                    0 <= j < i && !spec_cat_stale_for(self.categories@[j], user_id) ==> has_key(
                        kept@,
                        self.categories@[j].id,
                    ),
                forall|id: i64|
                    has_key(kept@, id) ==> old(self).has_cat(id) && !spec_cat_stale_for(
                        old(self).cat(id),
                        user_id,
                    ) && by_key(kept@, id) == old(self).cat(id) && key_index(
                        old(self).categories@,
                        id,
                    ) < i,
            decreases n - i,
        {
            let keep = !(self.categories[i].user_id == user_id && matches!(
                self.categories[i].sync_status,
                SyncStatus::Stale,
            ));
            if keep {
                let row = self.categories[i].clone();
                proof {
                    lemma_key_witness(self.categories@, i as int);
                    assert(!has_key(kept@, row.id)) by {
                        if has_key(kept@, row.id) {
                            assert(key_index(old(self).categories@, row.id) < i);
                        }
                    }
                    lemma_push_key(kept@, row);
                }
                kept.push(row);
            }
            i += 1;
        }
        proof {
            assert forall|id: i64|
                old(self).has_cat(id) && !spec_cat_stale_for(
                    old(self).cat(id),
                    user_id,
                ) implies has_key(kept@, id) by {
                lemma_by_key_carries(old(self).categories@, id);
            }
        }
        self.categories = kept;
    }

    /// Deletes this user's category rows whose ids the remote no longer
    /// reports. An empty id-set wipes all of the user's categories; other
    /// users' rows are never touched.
    pub fn delete_removed_categories(&mut self, user_id: i64, category_ids: &Vec<i64>)
        requires
            old(self).wf(),
        ensures
            final(self).wf(),
            forall|id: i64|
                final(self).has_cat(id) <==> old(self).has_cat(id) && spec_cat_kept_remote(
                    old(self).cat(id),
                    user_id,
                    category_ids@,
                ),
            forall|id: i64| final(self).has_cat(id) ==> final(self).cat(id) == old(self).cat(id),
            final(self).feeds == old(self).feeds,
            final(self).entries == old(self).entries,
            final(self).sync_state == old(self).sync_state,
            final(self).sync_queue == old(self).sync_queue,
    {
        let mut kept: Vec<CategoryRow> = Vec::new();
        let n = self.categories.len();
        let mut i: usize = 0;
        while i < n
            invariant
                i <= n,
                n == self.categories@.len(),
                *self == *old(self),
                old(self).wf(),
                keys_unique(kept@),
                forall|j: int|
                    0 <= j < i && spec_cat_kept_remote(self.categories@[j], user_id, category_ids@)
                        ==> has_key(kept@, self.categories@[j].id),
                forall|id: i64|
                    has_key(kept@, id) ==> old(self).has_cat(id) && spec_cat_kept_remote(
                        old(self).cat(id),
                        user_id,
                        category_ids@,
                    ) && by_key(kept@, id) == old(self).cat(id) && key_index(
                        old(self).categories@,
                        id,
                    ) < i,
            decreases n - i,
        {
            let keep = self.categories[i].user_id != user_id || contains_id(
                category_ids,
                self.categories[i].id,
            );
            if keep {
                let row = self.categories[i].clone();
                proof {
                    lemma_key_witness(self.categories@, i as int);
                    assert(!has_key(kept@, row.id)) by {
                        if has_key(kept@, row.id) {
                            assert(key_index(old(self).categories@, row.id) < i);
                        }
                    }
                    lemma_push_key(kept@, row);
                }
                kept.push(row);
            }
            i += 1;
        }
        proof {
            assert forall|id: i64|
                old(self).has_cat(id) && spec_cat_kept_remote(
                    old(self).cat(id),
                    user_id,
                    category_ids@,
                ) implies has_key(kept@, id) by {
                lemma_by_key_carries(old(self).categories@, id);
            }
        }
        self.categories = kept;
    }

    /// Index of the feed row keyed by `id`, if any.
    fn find_feed(&self, id: i64) -> (r: Option<usize>)
        ensures
            match r {
                Some(i) => i < self.feeds@.len() && self.feeds@[i as int].id == id,
                None => forall|j: int|
                    0 <= j < self.feeds@.len() ==> self.feeds@[j].id != id,
            },
    {
        let n = self.feeds.len();
        let mut i: usize = 0;
        while i < n
            invariant
                i <= n,
                n == self.feeds@.len(),
                forall|j: int| 0 <= j < i ==> self.feeds@[j].id != id,
            decreases n - i,
        {
            if self.feeds[i].id == id {
                return Some(i);
            }
            i += 1;
        }
        None
    }

    /// Inserts the row, or overwrites the row already keyed by its id: the
    /// update-on-conflict semantics of the mirrored tables.
    pub fn upsert_feed_row(&mut self, row: FeedRow)
        requires
            old(self).wf(),
        ensures
            final(self).wf(),
            forall|id: i64| final(self).has_feed(id) <==> old(self).has_feed(id) || id == row.id,
            final(self).feed(row.id) == row,
            forall|id: i64|
                id != row.id && old(self).has_feed(id) ==> final(self).feed(id) == old(self).feed(id),
            final(self).categories == old(self).categories,
            final(self).entries == old(self).entries,
            final(self).sync_state == old(self).sync_state,
            final(self).sync_queue == old(self).sync_queue,
    {
        match self.find_feed(row.id) {
            Some(i) => {
                proof {
                    lemma_key_witness(self.feeds@, i as int);
                    lemma_update_key(self.feeds@, i as int, row);
                }
                self.feeds.set(i, row);
            },
            None => {
                proof {
                    assert(!has_key(self.feeds@, row.id)) by {
                        if has_key(self.feeds@, row.id) {
                            let j = key_index(self.feeds@, row.id);
                            lemma_by_key_carries(self.feeds@, row.id);
                        }
                    }
                    lemma_push_key(self.feeds@, row);
                }
                self.feeds.push(row);
            },
        }
    }

    /// Marks every feed row of this user stale: the start of a full
    /// sync, where nothing counts as confirmed yet.
    pub fn mark_feeds_stale(&mut self, user_id: i64)
        requires
            old(self).wf(),
        ensures
            final(self).wf(),
            final(self).feeds@.len() == old(self).feeds@.len(),
            forall|j: int|
                0 <= j < final(self).feeds@.len() ==> final(self).feeds@[j] == spec_stale_feed(
                    old(self).feeds@[j],
                    user_id,
                ),
            forall|id: i64| final(self).has_feed(id) <==> old(self).has_feed(id),
            forall|id: i64|
                old(self).has_feed(id) ==> final(self).feed(id) == spec_stale_feed(
                    old(self).feed(id),
                    user_id,
                ),
            final(self).categories == old(self).categories,
            final(self).entries == old(self).entries,
            final(self).sync_state == old(self).sync_state,
            final(self).sync_queue == old(self).sync_queue,
    {
        let n = self.feeds.len();
        let mut i: usize = 0;
        while i < n
            invariant
                i <= n,
                n == self.feeds@.len(),
                forall|j: int|
                    0 <= j < i ==> self.feeds@[j] == spec_stale_feed(
                        old(self).feeds@[j],
                        user_id,
                    ),
                forall|j: int| i <= j < n ==> self.feeds@[j] == old(self).feeds@[j],
                self.categories == old(self).categories,
                self.entries == old(self).entries,
                self.sync_state == old(self).sync_state,
                self.sync_queue == old(self).sync_queue,
            decreases n - i,
        {
            if self.feeds[i].user_id == user_id {
                let row = self.feeds[i].clone();
                self.feeds.set(i, FeedRow { sync_status: SyncStatus::Stale, ..row });
            }
            i += 1;
        }
        proof {
            assert forall|j: int| 0 <= j < self.feeds@.len() implies self.feeds@[j].key()
                == old(self).feeds@[j].key() by {}
            lemma_pointwise_keys(old(self).feeds@, self.feeds@);
            assert forall|id: i64| old(self).has_feed(id) implies self.feed(id) == spec_stale_feed(
                old(self).feed(id),
                user_id,
            ) by {
                lemma_by_key_carries(old(self).feeds@, id);
            }
        }
    }

    /// Deletes every feed row of this user still marked stale: what the
    /// remote did not reconfirm during a full sync is gone.
    pub fn delete_stale_feeds(&mut self, user_id: i64)
        requires
            old(self).wf(),
        ensures
            final(self).wf(),
            forall|id: i64|
                final(self).has_feed(id) <==> old(self).has_feed(id) && !spec_feed_stale_for(
                    old(self).feed(id),
                    user_id,
                ),
            forall|id: i64| final(self).has_feed(id) ==> final(self).feed(id) == old(self).feed(id),
            final(self).categories == old(self).categories,
            final(self).entries == old(self).entries,
            final(self).sync_state == old(self).sync_state,
            final(self).sync_queue == old(self).sync_queue,
    {
        let mut kept: Vec<FeedRow> = Vec::new();
        let n = self.feeds.len();
        let mut i: usize = 0;
        while i < n
            invariant
                i <= n,
                n == self.feeds@.len(),
                *self == *old(self),
                old(self).wf(),
                keys_unique(kept@),
                forall|j: int|
                    0 <= j < i && !spec_feed_stale_for(self.feeds@[j], user_id) ==> has_key(
                        kept@,
                        self.feeds@[j].id,
                    ),
                forall|id: i64|
                    has_key(kept@, id) ==> old(self).has_feed(id) && !spec_feed_stale_for(
                        old(self).feed(id),
                        user_id,
                    ) && by_key(kept@, id) == old(self).feed(id) && key_index(
                        old(self).feeds@,
                        id,
                    ) < i,
            decreases n - i,
        {
            let keep = !(self.feeds[i].user_id == user_id && matches!(
                self.feeds[i].sync_status,
                SyncStatus::Stale,
            ));
            if keep {
                let row = self.feeds[i].clone();
                proof {
                    lemma_key_witness(self.feeds@, i as int);
                    assert(!has_key(kept@, row.id)) by {
                        if has_key(kept@, row.id) {
                            assert(key_index(old(self).feeds@, row.id) < i);
                        }
                    }
                    lemma_push_key(kept@, row);
                }
                kept.push(row);
            }
            i += 1;
        }
        proof {
            assert forall|id: i64|
                old(self).has_feed(id) && !spec_feed_stale_for(
                    old(self).feed(id),
                    user_id,
                ) implies has_key(kept@, id) by {
                lemma_by_key_carries(old(self).feeds@, id);
            }
        }
        self.feeds = kept;
    }

    /// Deletes this user's feed rows whose ids the remote no longer
    /// reports. An empty id-set wipes all of the user's feeds; other
    /// users' rows are never touched.
    pub fn delete_removed_feeds(&mut self, user_id: i64, feed_ids: &Vec<i64>)
        requires
            old(self).wf(),
        ensures
            final(self).wf(),
            forall|id: i64|
                final(self).has_feed(id) <==> old(self).has_feed(id) && spec_feed_kept_remote(
                    old(self).feed(id),
                    user_id,
                    feed_ids@,
                ),
            forall|id: i64| final(self).has_feed(id) ==> final(self).feed(id) == old(self).feed(id),
            final(self).categories == old(self).categories,
            final(self).entries == old(self).entries,
            final(self).sync_state == old(self).sync_state,
            final(self).sync_queue == old(self).sync_queue,
    {
        let mut kept: Vec<FeedRow> = Vec::new();
        let n = self.feeds.len();
        let mut i: usize = 0;
        while i < n
            invariant
                i <= n,
                n == self.feeds@.len(),
                *self == *old(self),
                old(self).wf(),
                keys_unique(kept@),
                forall|j: int|
                    0 <= j < i && spec_feed_kept_remote(self.feeds@[j], user_id, feed_ids@)
                        ==> has_key(kept@, self.feeds@[j].id),
                forall|id: i64|
                    has_key(kept@, id) ==> old(self).has_feed(id) && spec_feed_kept_remote(
                        old(self).feed(id),
                        user_id,
                        feed_ids@,
                    ) && by_key(kept@, id) == old(self).feed(id) && key_index(
                        old(self).feeds@,
                        id,
                    ) < i,
            decreases n - i,
        {
            let keep = self.feeds[i].user_id != user_id || contains_id(
                feed_ids,
                self.feeds[i].id,
            );
            if keep {
                let row = self.feeds[i].clone();
                proof {
                    lemma_key_witness(self.feeds@, i as int);
                    assert(!has_key(kept@, row.id)) by {
                        if has_key(kept@, row.id) {
                            assert(key_index(old(self).feeds@, row.id) < i);
                        }
                    }
                    lemma_push_key(kept@, row);
                }
                kept.push(row);
            }
            i += 1;
        }
        proof {
            assert forall|id: i64|
                old(self).has_feed(id) && spec_feed_kept_remote(
                    old(self).feed(id),
                    user_id,
                    feed_ids@,
                ) implies has_key(kept@, id) by {
                lemma_by_key_carries(old(self).feeds@, id);
            }
        }
        self.feeds = kept;
    }

    /// Index of the entry row keyed by `id`, if any.
    fn find_entry(&self, id: i64) -> (r: Option<usize>)
        ensures
            match r {
                Some(i) => i < self.entries@.len() && self.entries@[i as int].id == id,
                None => forall|j: int|
                    0 <= j < self.entries@.len() ==> self.entries@[j].id != id,
            },
    {
        let n = self.entries.len();
        let mut i: usize = 0;
        while i < n
            invariant
                i <= n,
                n == self.entries@.len(),
                forall|j: int| 0 <= j < i ==> self.entries@[j].id != id,
            decreases n - i,
        {
            if self.entries[i].id == id {
                return Some(i);
            }
            i += 1;
        }
        None
    }

    /// Inserts the row, or overwrites the row already keyed by its id: the
    /// update-on-conflict semantics of the mirrored tables.
    pub fn upsert_entry_row(&mut self, row: EntryRow)
        requires
            old(self).wf(),
        ensures
            final(self).wf(),
            forall|id: i64| final(self).has_entry(id) <==> old(self).has_entry(id) || id == row.id,
            final(self).entry(row.id) == row,
            forall|id: i64|
                id != row.id && old(self).has_entry(id) ==> final(self).entry(id) == old(self).entry(id),
            final(self).categories == old(self).categories,
            final(self).feeds == old(self).feeds,
            final(self).sync_state == old(self).sync_state,
            final(self).sync_queue == old(self).sync_queue,
    {
        match self.find_entry(row.id) {
            Some(i) => {
                proof {
                    lemma_key_witness(self.entries@, i as int);
                    lemma_update_key(self.entries@, i as int, row);
                }
                self.entries.set(i, row);
            },
            None => {
                proof {
                    assert(!has_key(self.entries@, row.id)) by {
                        if has_key(self.entries@, row.id) {
                            let j = key_index(self.entries@, row.id);
                            lemma_by_key_carries(self.entries@, row.id);
                        }
                    }
                    lemma_push_key(self.entries@, row);
                }
                self.entries.push(row);
            },
        }
    }

    /// Marks every entry row of this user stale: the start of a full
    /// sync, where nothing counts as confirmed yet.
    pub fn mark_entries_stale(&mut self, user_id: i64)
        requires
            old(self).wf(),
        ensures
            final(self).wf(),
            final(self).entries@.len() == old(self).entries@.len(),
            forall|j: int|
                0 <= j < final(self).entries@.len() ==> final(self).entries@[j] == spec_stale_entry(
                    old(self).entries@[j],
                    user_id,
                ),
            forall|id: i64| final(self).has_entry(id) <==> old(self).has_entry(id),
            forall|id: i64|
                old(self).has_entry(id) ==> final(self).entry(id) == spec_stale_entry(
                    old(self).entry(id),
                    user_id,
                ),
            final(self).categories == old(self).categories,
            final(self).feeds == old(self).feeds,
            final(self).sync_state == old(self).sync_state,
            final(self).sync_queue == old(self).sync_queue,
    {
        let n = self.entries.len();
        let mut i: usize = 0;
        while i < n
            invariant
                i <= n,
                n == self.entries@.len(),
                forall|j: int|
                    0 <= j < i ==> self.entries@[j] == spec_stale_entry(
                        old(self).entries@[j],
                        user_id,
                    ),
                forall|j: int| i <= j < n ==> self.entries@[j] == old(self).entries@[j],
                self.categories == old(self).categories,
                self.feeds == old(self).feeds,
                self.sync_state == old(self).sync_state,
                self.sync_queue == old(self).sync_queue,
            decreases n - i,
        {
            if self.entries[i].user_id == user_id {
                let row = self.entries[i].clone();
                self.entries.set(i, EntryRow { sync_status: SyncStatus::Stale, ..row });
            }
            i += 1;
        }
        proof {
            assert forall|j: int| 0 <= j < self.entries@.len() implies self.entries@[j].key()
                == old(self).entries@[j].key() by {}
            lemma_pointwise_keys(old(self).entries@, self.entries@);
            assert forall|id: i64| old(self).has_entry(id) implies self.entry(id) == spec_stale_entry(
                old(self).entry(id),
                user_id,
            ) by {
                lemma_by_key_carries(old(self).entries@, id);
            }
        }
    }

    /// Deletes every entry row of this user still marked stale: what the
    /// remote did not reconfirm during a full sync is gone.
    pub fn delete_stale_entries(&mut self, user_id: i64)
        requires
            old(self).wf(),
        ensures
            final(self).wf(),
            forall|id: i64|
                final(self).has_entry(id) <==> old(self).has_entry(id) && !spec_entry_stale_for(
                    old(self).entry(id),
                    user_id,
                ),
            forall|id: i64| final(self).has_entry(id) ==> final(self).entry(id) == old(self).entry(id),
            final(self).categories == old(self).categories,
            final(self).feeds == old(self).feeds,
            final(self).sync_state == old(self).sync_state,
            final(self).sync_queue == old(self).sync_queue,
    {
        let mut kept: Vec<EntryRow> = Vec::new();
        let n = self.entries.len();
        let mut i: usize = 0;
        while i < n
            invariant
                i <= n,
                n == self.entries@.len(),
                *self == *old(self),
                old(self).wf(),
                keys_unique(kept@),
                forall|j: int|
                    0 <= j < i && !spec_entry_stale_for(self.entries@[j], user_id) ==> has_key(
                        kept@,
                        self.entries@[j].id,
                    ),
                forall|id: i64|
                    has_key(kept@, id) ==> old(self).has_entry(id) && !spec_entry_stale_for(
                        old(self).entry(id),
                        user_id,
                    ) && by_key(kept@, id) == old(self).entry(id) && key_index(
                        old(self).entries@,
                        id,
                    ) < i,
            decreases n - i,
        {
            let keep = !(self.entries[i].user_id == user_id && matches!(
                self.entries[i].sync_status,
                SyncStatus::Stale,
            ));
            if keep {
                let row = self.entries[i].clone();
                proof {
                    lemma_key_witness(self.entries@, i as int);
                    assert(!has_key(kept@, row.id)) by {
                        if has_key(kept@, row.id) {
                            assert(key_index(old(self).entries@, row.id) < i);
                        }
                    }
                    lemma_push_key(kept@, row);
                }
                kept.push(row);
            }
            i += 1;
        }
        proof {
            assert forall|id: i64|
                old(self).has_entry(id) && !spec_entry_stale_for(
                    old(self).entry(id),
                    user_id,
                ) implies has_key(kept@, id) by {
                lemma_by_key_carries(old(self).entries@, id);
            }
        }
        self.entries = kept;
    }

    /// Deletes this user's entries that the server has reported removed at
    /// or after the previous sync boundary. Removal is signal-driven: an
    /// entry merely absent from the incremental window is never touched, and
    /// without a boundary nothing is deleted at all.
    pub fn delete_removed_entries(&mut self, user_id: i64, boundary: Option<i64>)
        requires
            old(self).wf(),
        ensures
            final(self).wf(),
            boundary is None ==> *final(self) == *old(self),
            boundary is Some ==> forall|id: i64|
                final(self).has_entry(id) <==> old(self).has_entry(id)
                    && !spec_entry_removed_after(old(self).entry(id), user_id, boundary->0),
            forall|id: i64|
                final(self).has_entry(id) ==> final(self).entry(id) == old(self).entry(id),
            final(self).categories == old(self).categories,
            final(self).feeds == old(self).feeds,
            final(self).sync_state == old(self).sync_state,
            final(self).sync_queue == old(self).sync_queue,
    {
        let b: i64 = match boundary {
            None => {
                return ;
            },
            Some(b) => b,
        };
        let mut kept: Vec<EntryRow> = Vec::new();
        let n = self.entries.len();
        let mut i: usize = 0;
        while i < n
            invariant
                i <= n,
                n == self.entries@.len(),
                *self == *old(self),
                old(self).wf(),
                b == boundary->0,
                keys_unique(kept@),
                forall|j: int|
                    0 <= j < i && !spec_entry_removed_after(self.entries@[j], user_id, b)
                        ==> has_key(kept@, self.entries@[j].id),
                forall|id: i64|
                    has_key(kept@, id) ==> old(self).has_entry(id) && !spec_entry_removed_after(
                        old(self).entry(id),
                        user_id,
                        b,
                    ) && by_key(kept@, id) == old(self).entry(id) && key_index(
                        old(self).entries@,
                        id,
                    ) < i,
            decreases n - i,
        {
            let removed_signal = self.entries[i].user_id == user_id && matches!(
                self.entries[i].status,
                EntryStatus::Removed,
            ) && match self.entries[i].changed_at {
                Some(c) => c >= b,
                None => false,
            };
            if !removed_signal {
                let row = self.entries[i].clone();
                proof {
                    lemma_key_witness(self.entries@, i as int);
                    assert(!has_key(kept@, row.id)) by {
                        if has_key(kept@, row.id) {
                            assert(key_index(old(self).entries@, row.id) < i);
                        }
                    }
                    lemma_push_key(kept@, row);
                }
                kept.push(row);
            }
            i += 1;
        }
        proof {
            assert forall|id: i64|
                old(self).has_entry(id) && !spec_entry_removed_after(
                    old(self).entry(id),
                    user_id,
                    b,
                ) implies has_key(kept@, id) by {
                lemma_by_key_carries(old(self).entries@, id);
            }
        }
        self.entries = kept;
    }

    /// An empty store: no mirrored rows, no sync state row yet.
    pub fn new() -> (s: LocalStore)
        ensures
            s.wf(),
            s.categories@.len() == 0,
            s.feeds@.len() == 0,
            s.entries@.len() == 0,
            s.sync_state is None,
            s.sync_queue@.len() == 0,
    {
        LocalStore {
            categories: Vec::new(),
            feeds: Vec::new(),
            entries: Vec::new(),
            sync_state: None,
            sync_queue: Vec::new(),
        }
    }

    /// Marks a run as in flight and clears the previous error, the first
    /// visible write of every sync run.
    pub fn mark_sync_in_progress(&mut self)
        requires
            old(self).sync_state is Some,
        ensures
            final(self).sync_state == Some(
                SyncState {
                    sync_in_progress: true,
                    sync_error: None,
                    ..old(self).sync_state->0
                },
            ),
            final(self).categories == old(self).categories,
            final(self).feeds == old(self).feeds,
            final(self).entries == old(self).entries,
            final(self).sync_queue == old(self).sync_queue,
    {
        let s = match &self.sync_state {
            Some(s) => s.clone(),
            None => {
                proof {
                    assert(false);
                }
                return ;
            },
        };
        self.sync_state = Some(SyncState { sync_in_progress: true, sync_error: None, ..s });
    }

    /// Records a completed run: the sync timestamp advances, the first
    /// successful run latches the full-sync timestamp permanently, the run
    /// is no longer in flight and the error is cleared.
    pub fn record_sync_success(&mut self, started_at: i64)
        requires
            old(self).sync_state is Some,
        ensures
            final(self).sync_state == Some(
                SyncState {
                    last_sync_at: Some(started_at),
                    last_full_sync_at: match old(self).sync_state->0.last_full_sync_at {
                        Some(t) => Some(t),
                        None => Some(started_at),
                    },
                    sync_in_progress: false,
                    sync_error: None,
                    ..old(self).sync_state->0
                },
            ),
            final(self).categories == old(self).categories,
            final(self).feeds == old(self).feeds,
            final(self).entries == old(self).entries,
            final(self).sync_queue == old(self).sync_queue,
    {
        let s = match &self.sync_state {
            Some(s) => s.clone(),
            None => {
                proof {
                    assert(false);
                }
                return ;
            },
        };
        let latched = match s.last_full_sync_at {
            Some(t) => Some(t),
            None => Some(started_at),
        };
        self.sync_state = Some(
            SyncState {
                last_sync_at: Some(started_at),
                last_full_sync_at: latched,
                sync_in_progress: false,
                sync_error: None,
                ..s
            },
        );
    }

    /// Records a failed run: the run is no longer in flight and the error
    /// message is kept for display, while both sync timestamps stay as they
    /// were. Without a sync state row there is nothing to record on.
    pub fn record_sync_failure(&mut self, error: String)
        ensures
            old(self).sync_state is None ==> final(self).sync_state is None,
            old(self).sync_state is Some ==> final(self).sync_state == Some(
                SyncState {
                    sync_in_progress: false,
                    sync_error: Some(error),
                    ..old(self).sync_state->0
                },
            ),
            final(self).categories == old(self).categories,
            final(self).feeds == old(self).feeds,
            final(self).entries == old(self).entries,
            final(self).sync_queue == old(self).sync_queue,
    {
        let s = match &self.sync_state {
            Some(s) => s.clone(),
            None => {
                return ;
            },
        };
        self.sync_state = Some(
            SyncState { sync_in_progress: false, sync_error: Some(error), ..s },
        );
    }
}


/// Two stores with the same category table resolve every category lookup
/// alike.
pub proof fn lemma_same_categories(a: LocalStore, b: LocalStore)
    requires
        a.categories == b.categories,
    ensures
        forall|id: i64| a.has_cat(id) <==> b.has_cat(id),
        forall|id: i64| a.cat(id) == b.cat(id),
{
}

/// Two stores with the same feed table resolve every feed lookup alike.
pub proof fn lemma_same_feeds(a: LocalStore, b: LocalStore)
    requires
        a.feeds == b.feeds,
    ensures
        forall|id: i64| a.has_feed(id) <==> b.has_feed(id),
        forall|id: i64| a.feed(id) == b.feed(id),
{
}

/// Two stores with the same entry table resolve every entry lookup alike.
pub proof fn lemma_same_entries(a: LocalStore, b: LocalStore)
    requires
        a.entries == b.entries,
    ensures
        forall|id: i64| a.has_entry(id) <==> b.has_entry(id),
        forall|id: i64| a.entry(id) == b.entry(id),
{
}

} // verus!
