//! Unread-count summaries served to the interface from the local store.

use vstd::prelude::*;

verus! {

/// Per-category unread count.
#[derive(Debug, Clone, Copy, PartialEq, Eq, Structural)]
pub struct CategoryUnread {
    pub category_id: i64,
    pub unread_count: i64,
}

/// Per-feed unread count.
#[derive(Debug, Clone, Copy, PartialEq, Eq, Structural)]
pub struct FeedUnread {
    pub feed_id: i64,
    pub unread_count: i64,
}

/// Unread counts over the whole local store.
#[derive(Debug)]
pub struct UnreadCounts {
    pub total: i64,
    pub by_category: Vec<CategoryUnread>,
    pub by_feed: Vec<FeedUnread>,
    pub today: i64,
}

} // verus!
