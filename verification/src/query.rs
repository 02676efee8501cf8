//! The query string of the paginated entry listing: every set filter as a
//! `name=value` pair, in a fixed order, joined by `&` after the `entries`
//! path. The free-text search term is percent-encoded.

use vstd::prelude::*;

use crate::miniflux::EntryFilters;
use crate::text::{bool_to_string, i64_to_string, push_char, spec_decimal_i64};

verus! {

/// What `urlencoding::encode` returns for a string: a function of the
/// characters alone.
pub uninterp spec fn url_encoded_of(s: Seq<char>) -> Seq<char>;

/// Percent-encodes a query value.
///
/// Relies on `urlencoding::encode`: percent-encodes every byte except the
/// unreserved characters; the result depends on the input alone.
#[verifier::external_body]
fn url_encode(s: &str) -> (r: String)
    ensures
        r@ == url_encoded_of(s@),
{
    urlencoding::encode(s).into_owned()
}

/// The words booleans print as.
pub open spec fn spec_bool_str(b: bool) -> Seq<char> {
    if b {
        "true"@
    } else {
        "false"@
    }
}

/// The parameter list extended by a set string filter.
pub open spec fn spec_push_opt_str(
    ps: Seq<Seq<char>>,
    name: Seq<char>,
    v: Option<String>,
) -> Seq<Seq<char>> {
    match v {
        Some(value) => ps.push(name + value@),
        None => ps,
    }
}

/// The parameter list extended by a set numeric filter.
pub open spec fn spec_push_opt_i64(
    ps: Seq<Seq<char>>,
    name: Seq<char>,
    v: Option<i64>,
) -> Seq<Seq<char>> {
    match v {
        Some(value) => ps.push(name + spec_decimal_i64(value as int)),
        None => ps,
    }
}

/// The parameter list extended by a set boolean filter.
pub open spec fn spec_push_opt_bool(
    ps: Seq<Seq<char>>,
    name: Seq<char>,
    v: Option<bool>,
) -> Seq<Seq<char>> {
    match v {
        Some(value) => ps.push(name + spec_bool_str(value)),
        None => ps,
    }
}

/// The parameter list extended by a set search term, percent-encoded.
pub open spec fn spec_push_search(ps: Seq<Seq<char>>, v: Option<String>) -> Seq<Seq<char>> {
    match v {
        Some(value) => ps.push("search="@ + url_encoded_of(value@)),
        None => ps,
    }
}

/// The `name=value` pairs of the set filters, in the order the client
/// sends them.
pub open spec fn spec_entry_params(f: EntryFilters) -> Seq<Seq<char>> {
    let ps = Seq::<Seq<char>>::empty();
    let ps = spec_push_opt_str(ps, "status="@, f.status);
    let ps = spec_push_opt_i64(ps, "offset="@, f.offset);
    let ps = spec_push_opt_i64(ps, "limit="@, f.limit);
    let ps = spec_push_opt_str(ps, "order="@, f.order);
    let ps = spec_push_opt_str(ps, "direction="@, f.direction);
    let ps = spec_push_opt_i64(ps, "before="@, f.before);
    let ps = spec_push_opt_i64(ps, "after="@, f.after);
    let ps = spec_push_opt_i64(ps, "published_before="@, f.published_before);
    let ps = spec_push_opt_i64(ps, "published_after="@, f.published_after);
    let ps = spec_push_opt_i64(ps, "changed_before="@, f.changed_before);
    let ps = spec_push_opt_i64(ps, "changed_after="@, f.changed_after);
    let ps = spec_push_opt_i64(ps, "before_entry_id="@, f.before_entry_id);
    let ps = spec_push_opt_i64(ps, "after_entry_id="@, f.after_entry_id);
    let ps = spec_push_opt_bool(ps, "starred="@, f.starred);
    let ps = spec_push_search(ps, f.search);
    let ps = spec_push_opt_i64(ps, "category_id="@, f.category_id);
    let ps = spec_push_opt_i64(ps, "feed_id="@, f.feed_id);
    let ps = spec_push_opt_bool(ps, "globally_visible="@, f.globally_visible);
    ps
}

/// The parameters joined with `&`.
pub open spec fn spec_join_params(parts: Seq<Seq<char>>) -> Seq<char>
    decreases parts.len(),
{
    if parts.len() == 0 {
        Seq::empty()
    } else if parts.len() == 1 {
        parts[0]
    } else {
        spec_join_params(parts.drop_last()) + seq!['&'] + parts.last()
    }
}

/// The request path of the entry listing under the given filters.
pub open spec fn spec_entries_path(f: EntryFilters) -> Seq<char> {
    if spec_entry_params(f).len() == 0 {
        "entries"@
    } else {
        "entries?"@ + spec_join_params(spec_entry_params(f))
    }
}

fn push_opt_str(parts: &mut Vec<String>, name: &str, v: &Option<String>)
    ensures
        final(parts).deep_view() == spec_push_opt_str(old(parts).deep_view(), name@, *v),
{
    match v {
        Some(value) => {
            let mut p = name.to_owned();
            p.append(value.as_str());
            parts.push(p);
            proof {
                assert(parts.deep_view() =~= spec_push_opt_str(
                    old(parts).deep_view(),
                    name@,
                    *v,
                ));
            }
        },
        None => {},
    }
}

fn push_opt_i64(parts: &mut Vec<String>, name: &str, v: Option<i64>)
    ensures
        final(parts).deep_view() == spec_push_opt_i64(old(parts).deep_view(), name@, v),
{
    match v {
        Some(value) => {
            let mut p = name.to_owned();
            let rendered = i64_to_string(value);
            p.append(rendered.as_str());
            parts.push(p);
            proof {
                assert(parts.deep_view() =~= spec_push_opt_i64(
                    old(parts).deep_view(),
                    name@,
                    v,
                ));
            }
        },
        None => {},
    }
}

fn push_opt_bool(parts: &mut Vec<String>, name: &str, v: Option<bool>)
    ensures
        final(parts).deep_view() == spec_push_opt_bool(old(parts).deep_view(), name@, v),
{
    match v {
        Some(value) => {
            let mut p = name.to_owned();
            let rendered = bool_to_string(value);
            p.append(rendered.as_str());
            parts.push(p);
            proof {
                assert(parts.deep_view() =~= spec_push_opt_bool(
                    old(parts).deep_view(),
                    name@,
                    v,
                ));
            }
        },
        None => {},
    }
}

fn push_search(parts: &mut Vec<String>, v: &Option<String>)
    ensures
        final(parts).deep_view() == spec_push_search(old(parts).deep_view(), *v),
{
    match v {
        Some(value) => {
            let mut p = "search=".to_owned();
            let encoded = url_encode(value.as_str());
            p.append(encoded.as_str());
            parts.push(p);
            proof {
                assert(parts.deep_view() =~= spec_push_search(old(parts).deep_view(), *v));
            }
        },
        None => {},
    }
}

/// The set filters as rendered `name=value` parts.
fn build_entry_params(filters: &EntryFilters) -> (parts: Vec<String>)
    ensures
        parts.deep_view() == spec_entry_params(*filters),
{
    let mut parts: Vec<String> = Vec::new();
    proof {
        assert(parts.deep_view() =~= Seq::<Seq<char>>::empty());
    }
    push_opt_str(&mut parts, "status=", &filters.status);
    push_opt_i64(&mut parts, "offset=", filters.offset);
    push_opt_i64(&mut parts, "limit=", filters.limit);
    push_opt_str(&mut parts, "order=", &filters.order);
    push_opt_str(&mut parts, "direction=", &filters.direction);
    push_opt_i64(&mut parts, "before=", filters.before);
    push_opt_i64(&mut parts, "after=", filters.after);
    push_opt_i64(&mut parts, "published_before=", filters.published_before);
    push_opt_i64(&mut parts, "published_after=", filters.published_after);
    push_opt_i64(&mut parts, "changed_before=", filters.changed_before);
    push_opt_i64(&mut parts, "changed_after=", filters.changed_after);
    push_opt_i64(&mut parts, "before_entry_id=", filters.before_entry_id);
    push_opt_i64(&mut parts, "after_entry_id=", filters.after_entry_id);
    push_opt_bool(&mut parts, "starred=", filters.starred);
    push_search(&mut parts, &filters.search);
    push_opt_i64(&mut parts, "category_id=", filters.category_id);
    push_opt_i64(&mut parts, "feed_id=", filters.feed_id);
    push_opt_bool(&mut parts, "globally_visible=", filters.globally_visible);
    parts
}

/// Builds the request path of the paginated entry listing, as the remote
/// client sends it.
#[verifier::rlimit(100)]
pub fn entry_filters_query(filters: &EntryFilters) -> (r: String)
    ensures
        r@ == spec_entries_path(*filters),
{
    let parts = build_entry_params(filters);
    if parts.len() == 0 {
        proof {
            assert(parts@.len() == parts.deep_view().len());
        }
        return "entries".to_owned();
    }
    let mut out = "entries?".to_owned();
    out.append(parts[0].as_str());
    proof {
        assert(parts.deep_view()[0] == parts@[0]@);
        assert(parts.deep_view().subrange(0, 1).len() == 1);
        assert(parts.deep_view().subrange(0, 1)[0] == parts.deep_view()[0]);
        assert(out@ =~= "entries?"@ + spec_join_params(parts.deep_view().subrange(0, 1)));
    }
    let n = parts.len();
    let mut i: usize = 1;
    while i < n
        invariant
            1 <= i <= n,
            n == parts@.len(),
            out@ == "entries?"@ + spec_join_params(parts.deep_view().subrange(0, i as int)),
        decreases n - i,
    {
        push_char(&mut out, '&');
        out.append(parts[i].as_str());
        proof {
            let pd = parts.deep_view();
            assert(pd.subrange(0, i + 1).drop_last() =~= pd.subrange(0, i as int));
            assert(pd.subrange(0, i + 1).last() == pd[i as int]);
            assert(pd[i as int] == parts@[i as int]@);
            assert(out@ =~= "entries?"@ + spec_join_params(pd.subrange(0, i + 1)));
        }
        i += 1;
    }
    proof {
        assert(parts.deep_view().subrange(0, n as int) =~= parts.deep_view());
    }
    out
}

} // verus!
