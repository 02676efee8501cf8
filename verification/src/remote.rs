//! The remote side of a sync run: what the server reports.
//!
//! A `RemoteSnapshot` holds the collections the remote would serve during
//! one run — the authenticated user, the category and feed lists, and the
//! entry listing in the server's order. An endpoint whose field is `None`
//! fails when called, which is how a run's abort paths are exercised. The
//! entry listing is served through the same windowed pagination contract the
//! real server offers: fixed-size pages by offset, optionally restricted to
//! entries changed after a boundary.

use vstd::prelude::*;

use crate::miniflux::{Category, Entry, EntryFilters, EntryResponse, Feed, User};
use crate::table::{by_key, has_key, keys_unique, lemma_push_key, Keyed};

verus! {

/// The entry falls inside the change window: either no boundary is given,
/// or the server reports it changed strictly after the boundary.
pub open spec fn spec_in_window(e: Entry, changed_after: Option<i64>) -> bool {
    match changed_after {
        None => true,
        Some(t) => e.changed_at is Some && e.changed_at->0 > t,
    }
}

/// The subsequence of the listing that falls inside the change window, in
/// the server's order.
pub open spec fn spec_window(s: Seq<Entry>, changed_after: Option<i64>) -> Seq<Entry>
    decreases s.len(),
{
    if s.len() == 0 {
        Seq::empty()
    } else {
        spec_window(s.drop_last(), changed_after) + if spec_in_window(s.last(), changed_after) {
            seq![s.last()]
        } else {
            Seq::empty()
        }
    }
}

/// The window is a keyed sub-listing: no longer than the listing, with the
/// same distinct keys restricted to the entries inside the window, and the
/// same record under each key.
pub proof fn lemma_window_keys(s: Seq<Entry>, changed_after: Option<i64>)
    requires
        keys_unique(s),
    ensures
        spec_window(s, changed_after).len() <= s.len(),
        keys_unique(spec_window(s, changed_after)),
        forall|k: i64|
            has_key(spec_window(s, changed_after), k) <==> has_key(s, k) && spec_in_window(
                by_key(s, k),
                changed_after,
            ),
        forall|k: i64|
            has_key(spec_window(s, changed_after), k) ==> by_key(
                spec_window(s, changed_after),
                k,
            ) == by_key(s, k),
    decreases s.len(),
{
    let w = spec_window(s, changed_after);
    if s.len() == 0 {
        assert forall|k: i64| has_key(w, k) implies false by {
            let i = choose|i: int| 0 <= i < w.len() && w[i].key() == k;
        }
    } else {
        let s0 = s.drop_last();
        let last = s.last();
        let w0 = spec_window(s0, changed_after);
        assert(keys_unique(s0));
        lemma_window_keys(s0, changed_after);
        assert(s =~= s0.push(last));
        assert(!has_key(s0, last.key())) by {
            if has_key(s0, last.key()) {
                let i = choose|i: int| 0 <= i < s0.len() && s0[i].key() == last.key();
                assert(s[i].key() == s[s.len() - 1].key());
            }
        }
        lemma_push_key(s0, last);
        assert(!has_key(w0, last.key()));
        if spec_in_window(last, changed_after) {
            assert(w =~= w0.push(last));
            lemma_push_key(w0, last);
            assert forall|k: i64| has_key(w, k) implies has_key(s, k) && spec_in_window(
                by_key(s, k),
                changed_after,
            ) && by_key(w, k) == by_key(s, k) by {
                assert(has_key(w0.push(last), k));
                if has_key(w0, k) {
                    assert(has_key(s0, k));
                    assert(by_key(s0.push(last), k) == by_key(s0, k));
                    assert(by_key(w0.push(last), k) == by_key(w0, k));
                } else {
                    assert(k == last.key());
                    assert(by_key(s0.push(last), k) == last);
                    assert(by_key(w0.push(last), k) == last);
                }
            }
            assert forall|k: i64|
                has_key(s, k) && spec_in_window(by_key(s, k), changed_after) implies has_key(
                w,
                k,
            ) by {
                assert(has_key(s0.push(last), k));
                if has_key(s0, k) {
                    assert(by_key(s0.push(last), k) == by_key(s0, k));
                    assert(has_key(w0, k));
                }
                assert(has_key(w0.push(last), k));
            }
        } else {
            assert(w =~= w0);
            assert forall|k: i64| has_key(w, k) implies has_key(s, k) && spec_in_window(
                by_key(s, k),
                changed_after,
            ) && by_key(w, k) == by_key(s, k) by {
                assert(has_key(s0, k));
                assert(by_key(s0.push(last), k) == by_key(s0, k));
            }
            assert forall|k: i64|
                has_key(s, k) && spec_in_window(by_key(s, k), changed_after) implies has_key(
                w,
                k,
            ) by {
                assert(has_key(s0.push(last), k));
                if has_key(s0, k) {
                    assert(by_key(s0.push(last), k) == by_key(s0, k));
                } else {
                    assert(k == last.key());
                    assert(by_key(s0.push(last), k) == last);
                }
            }
        }
    }
}

/// One snapshot of the remote: what each endpoint would report during this
/// run, or `None` where the endpoint fails.
pub struct RemoteSnapshot {
    pub user: Option<User>,
    pub categories: Option<Vec<Category>>,
    pub feeds: Option<Vec<Feed>>,
    pub entries: Option<Vec<Entry>>,
}

impl RemoteSnapshot {
    /// Well-formedness: each reported collection is keyed by distinct
    /// server-assigned ids, and the entry listing fits the pagination
    /// arithmetic.
    pub open spec fn wf(self) -> bool {
        &&& self.categories is Some ==> keys_unique(self.categories->0@)
        &&& self.feeds is Some ==> keys_unique(self.feeds->0@)
        &&& self.entries is Some ==> keys_unique(self.entries->0@)
        &&& self.categories is Some ==> self.categories->0@.len() <= 0xffff_ffff
        &&& self.feeds is Some ==> self.feeds->0@.len() <= 0xffff_ffff
        &&& self.entries is Some ==> self.entries->0@.len() <= 0xffff_ffff
    }

    /// Every endpoint answers: the run can complete.
    pub open spec fn responsive(self) -> bool {
        &&& self.user is Some
        &&& self.categories is Some
        &&& self.feeds is Some
        &&& self.entries is Some
    }

    /// Resolves the authenticated user, as the current-user endpoint does.
    pub fn get_current_user(&self) -> (r: Result<User, String>)
        ensures
            match r {
                Ok(u) => self.user == Some(u),
                Err(_) => self.user is None,
            },
    {
        match &self.user {
            Some(u) => Ok(u.clone()),
            None => Err("current user request failed".to_owned()),
        }
    }

    /// Reports the full category list, as the unpaginated endpoint does.
    pub fn get_categories(&self) -> (r: Result<Vec<Category>, String>)
        ensures
            match r {
                Ok(v) => self.categories is Some && v@ == self.categories->0@,
                Err(_) => self.categories is None,
            },
    {
        let src = match &self.categories {
            Some(v) => v,
            None => {
                return Err("categories request failed".to_owned());
            },
        };
        let n = src.len();
        let mut out: Vec<Category> = Vec::new();
        let mut i: usize = 0;
        while i < n
            invariant
                i <= n,
                n == src@.len(),
                out@.len() == i,
                forall|j: int| 0 <= j < i ==> out@[j] == src@[j],
            decreases n - i,
        {
            out.push(src[i].clone());
            i += 1;
        }
        proof {
            assert(out@ =~= src@);
        }
        Ok(out)
    }

    /// Reports the full feed list, as the unpaginated endpoint does.
    pub fn get_feeds(&self) -> (r: Result<Vec<Feed>, String>)
        ensures
            match r {
                Ok(v) => self.feeds is Some && v@ == self.feeds->0@,
                Err(_) => self.feeds is None,
            },
    {
        let src = match &self.feeds {
            Some(v) => v,
            None => {
                return Err("feeds request failed".to_owned());
            },
        };
        let n = src.len();
        let mut out: Vec<Feed> = Vec::new();
        let mut i: usize = 0;
        while i < n
            invariant
                i <= n,
                n == src@.len(),
                out@.len() == i,
                forall|j: int| 0 <= j < i ==> out@[j] == src@[j],
            decreases n - i,
        {
            out.push(src[i].clone());
            i += 1;
        }
        proof {
            assert(out@ =~= src@);
        }
        Ok(out)
    }

    /// Serves one page of the entry listing: the window of entries changed
    /// after the boundary (all of them without one), sliced at the given
    /// offset to at most `limit` rows, together with the window's total.
    pub fn get_entries(&self, filters: &EntryFilters) -> (r: Result<EntryResponse, String>)
        requires
            self.wf(),
            filters.offset is Some,
            0 <= filters.offset->0 <= 0xffff_ffff,
            filters.limit is Some,
            1 <= filters.limit->0 <= 0xffff_ffff,
        ensures
            match r {
                Ok(resp) => self.entries is Some && {
                    let w = spec_window(self.entries->0@, filters.changed_after);
                    let off = filters.offset->0 as int;
                    let lo = if off <= w.len() { off } else { w.len() as int };
                    let hi = if off + filters.limit->0 <= w.len() {
                        off + filters.limit->0
                    } else {
                        w.len() as int
                    };
                    &&& resp.total == w.len()
                    &&& resp.entries is Some
                    &&& resp.entries->0@ == w.subrange(lo, hi)
                },
                Err(_) => self.entries is None,
            },
    {
        let src = match &self.entries {
            Some(v) => v,
            None => {
                return Err("entries request failed".to_owned());
            },
        };
        let n = src.len();
        let mut win: Vec<Entry> = Vec::new();
        let mut i: usize = 0;
        while i < n
            invariant
                i <= n,
                n == src@.len(),
                win@ == spec_window(src@.take(i as int), filters.changed_after),
                win@.len() <= i,
            decreases n - i,
        {
            proof {
                assert(src@.take(i + 1).drop_last() =~= src@.take(i as int));
                assert(src@.take(i + 1).last() == src@[i as int]);
            }
            if entry_in_window(&src[i], filters.changed_after) {
                win.push(src[i].clone());
                proof {
                    assert(win@ =~= spec_window(src@.take(i as int), filters.changed_after)
                        + seq![src@[i as int]]);
                }
            } else {
                proof {
                    assert(win@ =~= spec_window(src@.take(i as int), filters.changed_after)
                        + Seq::empty());
                }
            }
            i += 1;
        }
        proof {
            assert(src@.take(n as int) =~= src@);
        }
        let total: i64 = win.len() as i64;
        let off = match filters.offset {
            Some(o) => o,
            None => 0,
        };
        let lim = match filters.limit {
            Some(l) => l,
            None => 0,
        };
        let lo: i64 = if off <= total {
            off
        } else {
            total
        };
        let hi: i64 = if off + lim <= total {
            off + lim
        } else {
            total
        };
        let lo_us: usize = lo as usize;
        let hi_us: usize = hi as usize;
        let mut page: Vec<Entry> = Vec::new();
        let mut j: usize = lo_us;
        while j < hi_us
            invariant
                lo_us <= j <= hi_us,
                hi_us <= win@.len(),
                page@ == win@.subrange(lo_us as int, j as int),
            decreases hi_us - j,
        {
            page.push(win[j].clone());
            proof {
                assert(page@ =~= win@.subrange(lo_us as int, j + 1));
            }
            j += 1;
        }
        proof {
            assert(page@ =~= win@.subrange(lo as int, hi as int));
        }
        Ok(EntryResponse { total, entries: Some(page) })
    }
}

/// Whether an entry falls inside the change window.
pub fn entry_in_window(e: &Entry, changed_after: Option<i64>) -> (b: bool)
    ensures
        b == spec_in_window(*e, changed_after),
{
    match changed_after {
        None => true,
        Some(t) => match e.changed_at {
            Some(c) => c > t,
            None => false,
        },
    }
}

} // verus!
