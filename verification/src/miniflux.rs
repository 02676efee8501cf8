//! Typed payloads of the remote feed-aggregation server.
//!
//! These are the values the remote reports: categories, feeds, entries and
//! the authenticated user. Timestamps are carried as epoch seconds; the
//! string-typed entry status of the wire format is a closed enumeration here,
//! so every consumption site matches exhaustively.

use vstd::prelude::*;

use crate::table::Keyed;

verus! {

/// Read state the server reports for an entry.
#[derive(Debug, Clone, Copy, PartialEq, Eq, Structural)]
pub enum EntryStatus {
    Unread,
    Read,
    Removed,
}

/// A category as the remote reports it.
#[derive(Debug)]
pub struct Category {
    pub id: i64,
    pub user_id: i64,
    pub title: String,
    pub hide_globally: bool,
    pub created_at: Option<i64>,
    pub updated_at: Option<i64>,
}

/// Reference from a feed to its icon.
#[derive(Debug)]
pub struct FeedIcon {
    pub feed_id: i64,
    pub icon_id: i64,
}

/// Icon data, base64-encoded by the server.
#[derive(Debug)]
pub struct Icon {
    pub id: i64,
    pub data: String,
    pub mime_type: String,
}

/// A feed as the remote reports it, configuration fields mirrored verbatim.
#[derive(Debug)]
pub struct Feed {
    pub id: i64,
    pub user_id: i64,
    pub title: String,
    pub site_url: String,
    pub feed_url: String,
    pub category: Option<Category>,
    pub icon: Option<FeedIcon>,
    pub checked_at: Option<i64>,
    pub etag_header: Option<String>,
    pub last_modified_header: Option<String>,
    pub parsing_error_message: Option<String>,
    pub parsing_error_count: i32,
    pub scraper_rules: Option<String>,
    pub rewrite_rules: Option<String>,
    pub crawler: bool,
    pub blocklist_rules: Option<String>,
    pub keeplist_rules: Option<String>,
    pub user_agent: Option<String>,
    pub username: Option<String>,
    pub password: Option<String>,
    pub disabled: bool,
    pub ignore_http_cache: bool,
    pub fetch_via_proxy: bool,
    pub no_media_player: bool,
    pub allow_self_signed_certificates: bool,
    pub urlrewrite_rules: Option<String>,
    pub cookie: Option<String>,
    pub apprise_service_urls: Option<String>,
    pub hide_globally: bool,
    pub created_at: Option<i64>,
    pub updated_at: Option<i64>,
}

/// An entry as the remote reports it.
#[derive(Debug)]
pub struct Entry {
    pub id: i64,
    pub user_id: i64,
    pub feed_id: i64,
    pub title: String,
    pub url: String,
    pub comments_url: Option<String>,
    pub author: Option<String>,
    pub content: Option<String>,
    pub hash: String,
    pub published_at: i64,
    pub created_at: Option<i64>,
    pub changed_at: Option<i64>,
    pub status: EntryStatus,
    pub share_code: Option<String>,
    pub starred: bool,
    pub reading_time: Option<i32>,
}

/// One page of the paginated entry listing.
#[derive(Debug)]
pub struct EntryResponse {
    pub total: i64,
    pub entries: Option<Vec<Entry>>,
}

/// Enclosure attached to an entry (podcasts, videos).
#[derive(Debug)]
pub struct Enclosure {
    pub id: i64,
    pub entry_id: i64,
    pub url: String,
    pub mime_type: String,
    pub length: Option<i64>,
    pub position: i32,
}

/// The authenticated user the remote resolves for this connection.
#[derive(Debug)]
pub struct User {
    pub id: i64,
    pub username: String,
    pub is_admin: bool,
    pub theme: Option<String>,
    pub language: Option<String>,
    pub timezone: Option<String>,
    pub entry_sorting_direction: Option<String>,
    pub entry_sorting_order: Option<String>,
    pub entries_per_page: Option<i32>,
    pub keyboard_shortcuts: Option<bool>,
    pub display_mode: Option<String>,
    pub show_reading_time: Option<bool>,
    pub entry_swipe: Option<bool>,
    pub stylesheet: Option<String>,
    pub google_id: Option<String>,
    pub openid_connect_id: Option<String>,
    pub last_login_at: Option<i64>,
    pub created_at: Option<i64>,
    pub updated_at: Option<i64>,
}

/// Read/unread totals the remote reports per user.
#[derive(Debug, Clone, Copy, PartialEq, Eq, Structural)]
pub struct Counters {
    pub user_id: i64,
    pub read_count: i64,
    pub unread_count: i64,
}

/// A feed discovered at a site.
#[derive(Debug)]
pub struct Subscription {
    pub url: String,
    pub title: String,
    pub feed_type: String,
}

/// Filters of the paginated entry listing.
#[derive(Debug)]
pub struct EntryFilters {
    pub status: Option<String>,
    pub offset: Option<i64>,
    pub limit: Option<i64>,
    pub order: Option<String>,
    pub direction: Option<String>,
    pub before: Option<i64>,
    pub after: Option<i64>,
    pub published_before: Option<i64>,
    pub published_after: Option<i64>,
    pub changed_before: Option<i64>,
    pub changed_after: Option<i64>,
    pub before_entry_id: Option<i64>,
    pub after_entry_id: Option<i64>,
    pub starred: Option<bool>,
    pub search: Option<String>,
    pub category_id: Option<i64>,
    pub feed_id: Option<i64>,
    pub globally_visible: Option<bool>,
}

impl EntryFilters {
    /// Filters with nothing set: the unconstrained listing.
    pub fn none() -> (f: EntryFilters)
        ensures
            f.status is None,
            f.offset is None,
            f.limit is None,
            f.order is None,
            f.direction is None,
            f.before is None,
            f.after is None,
            f.published_before is None,
            f.published_after is None,
            f.changed_before is None,
            f.changed_after is None,
            f.before_entry_id is None,
            f.after_entry_id is None,
            f.starred is None,
            f.search is None,
            f.category_id is None,
            f.feed_id is None,
            f.globally_visible is None,
    {
        EntryFilters {
            status: None,
            offset: None,
            limit: None,
            order: None,
            direction: None,
            before: None,
            after: None,
            published_before: None,
            published_after: None,
            changed_before: None,
            changed_after: None,
            before_entry_id: None,
            after_entry_id: None,
            starred: None,
            search: None,
            category_id: None,
            feed_id: None,
            globally_visible: None,
        }
    }
}

/// Requested changes to a feed.
#[derive(Debug)]
pub struct FeedUpdate {
    pub feed_url: Option<String>,
    pub site_url: Option<String>,
    pub title: Option<String>,
    pub category_id: Option<i64>,
    pub scraper_rules: Option<String>,
    pub rewrite_rules: Option<String>,
    pub blocklist_rules: Option<String>,
    pub keeplist_rules: Option<String>,
    pub crawler: Option<bool>,
    pub user_agent: Option<String>,
    pub username: Option<String>,
    pub password: Option<String>,
    pub disabled: Option<bool>,
    pub ignore_http_cache: Option<bool>,
    pub fetch_via_proxy: Option<bool>,
}

/// Requested changes to an entry.
#[derive(Debug)]
pub struct EntryUpdate {
    pub title: Option<String>,
    pub content: Option<String>,
}

/// A user to create on the remote.
#[derive(Debug)]
pub struct UserCreate {
    pub username: String,
    pub password: String,
    pub is_admin: Option<bool>,
}

/// Requested changes to a user.
#[derive(Debug)]
pub struct UserUpdate {
    pub username: Option<String>,
    pub password: Option<String>,
    pub theme: Option<String>,
    pub language: Option<String>,
    pub timezone: Option<String>,
    pub entry_sorting_direction: Option<String>,
    pub entries_per_page: Option<i32>,
    pub keyboard_shortcuts: Option<bool>,
    pub display_mode: Option<String>,
    pub show_reading_time: Option<bool>,
    pub entry_swipe: Option<bool>,
    pub stylesheet: Option<String>,
}

/// Progress of one enclosure download.
#[derive(Debug)]
pub struct DownloadProgress {
    pub enclosure_id: i64,
    pub file_name: String,
    pub url: String,
    pub progress: i32,
    pub downloaded_bytes: i64,
    pub total_bytes: i64,
    pub status: String,
    pub file_path: Option<String>,
}

/// Credentials for connecting to a server.
#[derive(Debug)]
pub struct AuthConfig {
    pub server_url: String,
    pub auth_token: Option<String>,
    pub username: Option<String>,
    pub password: Option<String>,
}

/// Version information the remote reports about itself.
#[derive(Debug)]
pub struct MinifluxVersion {
    pub version: String,
    pub commit: Option<String>,
    pub build_date: Option<String>,
    pub go_version: Option<String>,
    pub arch: Option<String>,
    pub os: Option<String>,
}

impl Keyed for Category {
    open spec fn key(self) -> i64 {
        self.id
    }
}

impl Keyed for Feed {
    open spec fn key(self) -> i64 {
        self.id
    }
}

impl Keyed for Entry {
    open spec fn key(self) -> i64 {
        self.id
    }
}

/// Clones an optional string, value for value.
pub fn clone_opt_string(o: &Option<String>) -> (r: Option<String>)
    ensures
        r == *o,
{
    match o {
        None => None,
        Some(s) => Some(s.clone()),
    }
}

impl Clone for Category {
    fn clone(&self) -> (r: Self)
        ensures
            r == *self,
    {
        Category {
            id: self.id,
            user_id: self.user_id,
            title: self.title.clone(),
            hide_globally: self.hide_globally,
            created_at: self.created_at,
            updated_at: self.updated_at,
        }
    }
}

impl Clone for FeedIcon {
    fn clone(&self) -> (r: Self)
        ensures
            r == *self,
    {
        FeedIcon { feed_id: self.feed_id, icon_id: self.icon_id }
    }
}

impl Clone for Feed {
    fn clone(&self) -> (r: Self)
        ensures
            r == *self,
    {
        Feed {
            id: self.id,
            user_id: self.user_id,
            title: self.title.clone(),
            site_url: self.site_url.clone(),
            feed_url: self.feed_url.clone(),
            category: match &self.category {
                None => None,
                Some(c) => Some(c.clone()),
            },
            icon: match &self.icon {
                None => None,
                Some(i) => Some(i.clone()),
            },
            checked_at: self.checked_at,
            etag_header: clone_opt_string(&self.etag_header),
            last_modified_header: clone_opt_string(&self.last_modified_header),
            parsing_error_message: clone_opt_string(&self.parsing_error_message),
            parsing_error_count: self.parsing_error_count,
            scraper_rules: clone_opt_string(&self.scraper_rules),
            rewrite_rules: clone_opt_string(&self.rewrite_rules),
            crawler: self.crawler,
            blocklist_rules: clone_opt_string(&self.blocklist_rules),
            keeplist_rules: clone_opt_string(&self.keeplist_rules),
            user_agent: clone_opt_string(&self.user_agent),
            username: clone_opt_string(&self.username),
            password: clone_opt_string(&self.password),
            disabled: self.disabled,
            ignore_http_cache: self.ignore_http_cache,
            fetch_via_proxy: self.fetch_via_proxy,
            no_media_player: self.no_media_player,
            allow_self_signed_certificates: self.allow_self_signed_certificates,
            urlrewrite_rules: clone_opt_string(&self.urlrewrite_rules),
            cookie: clone_opt_string(&self.cookie),
            apprise_service_urls: clone_opt_string(&self.apprise_service_urls),
            hide_globally: self.hide_globally,
            created_at: self.created_at,
            updated_at: self.updated_at,
        }
    }
}

impl Clone for Entry {
    fn clone(&self) -> (r: Self)
        ensures
            r == *self,
    {
        Entry {
            id: self.id,
            user_id: self.user_id,
            feed_id: self.feed_id,
            title: self.title.clone(),
            url: self.url.clone(),
            comments_url: clone_opt_string(&self.comments_url),
            author: clone_opt_string(&self.author),
            content: clone_opt_string(&self.content),
            hash: self.hash.clone(),
            published_at: self.published_at,
            created_at: self.created_at,
            changed_at: self.changed_at,
            status: self.status,
            share_code: clone_opt_string(&self.share_code),
            starred: self.starred,
            reading_time: self.reading_time,
        }
    }
}

impl Clone for User {
    fn clone(&self) -> (r: Self)
        ensures
            r == *self,
    {
        User {
            id: self.id,
            username: self.username.clone(),
            is_admin: self.is_admin,
            theme: clone_opt_string(&self.theme),
            language: clone_opt_string(&self.language),
            timezone: clone_opt_string(&self.timezone),
            entry_sorting_direction: clone_opt_string(&self.entry_sorting_direction),
            entry_sorting_order: clone_opt_string(&self.entry_sorting_order),
            entries_per_page: self.entries_per_page,
            keyboard_shortcuts: self.keyboard_shortcuts,
            display_mode: clone_opt_string(&self.display_mode),
            show_reading_time: self.show_reading_time,
            entry_swipe: self.entry_swipe,
            stylesheet: clone_opt_string(&self.stylesheet),
            google_id: clone_opt_string(&self.google_id),
            openid_connect_id: clone_opt_string(&self.openid_connect_id),
            last_login_at: self.last_login_at,
            created_at: self.created_at,
            updated_at: self.updated_at,
        }
    }
}

} // verus!
