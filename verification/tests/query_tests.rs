use minikyu::miniflux::EntryFilters;
use minikyu::query::entry_filters_query;

#[test]
fn empty_filters_give_the_bare_path() {
    let filters = EntryFilters::none();
    assert_eq!(entry_filters_query(&filters), "entries");
}

#[test]
fn set_filters_appear_in_order() {
    let mut filters = EntryFilters::none();
    filters.status = Some("unread".to_string());
    filters.offset = Some(200);
    filters.limit = Some(200);
    filters.order = Some("published_at".to_string());
    filters.direction = Some("desc".to_string());
    filters.changed_after = Some(-5);
    filters.starred = Some(true);
    assert_eq!(
        entry_filters_query(&filters),
        "entries?status=unread&offset=200&limit=200&order=published_at&direction=desc&changed_after=-5&starred=true"
    );
}

#[test]
fn search_terms_are_percent_encoded() {
    let mut filters = EntryFilters::none();
    filters.search = Some("hello world".to_string());
    assert_eq!(entry_filters_query(&filters), "entries?search=hello%20world");
}
