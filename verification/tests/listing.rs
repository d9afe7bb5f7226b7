use anchorage::api::{BookmarkView, Page};
use anchorage::listing::{
    archive_done_message, empty_description, ListState, Scope, TagListState,
};

fn bookmark(id: i32, title: &str) -> BookmarkView {
    BookmarkView {
        id,
        url: format!("https://example.com/{id}"),
        title: title.to_string(),
        description: String::new(),
        notes: String::new(),
        tag_names: Vec::new(),
        website_title: None,
        website_description: None,
        favicon_url: None,
        unread: false,
        shared: false,
        is_archived: false,
        date_added: String::new(),
    }
}

#[test]
fn refresh_requests_first_page_once() {
    let mut s = ListState::new(Scope::Active);
    let r = s.refresh().expect("first refresh loads");
    assert_eq!(r.scope, Scope::Active);
    assert_eq!(r.offset, 0);
    assert_eq!(r.query, None);
    // A second refresh while the first is out makes no request.
    assert!(s.refresh().is_none());
    assert!(s.load_more().is_none());
}

#[test]
fn pages_accumulate_and_stop_at_total() {
    let mut s = ListState::new(Scope::Archived);
    s.refresh().unwrap();
    s.page_loaded(Page { total: 3, items: vec![bookmark(1, "a"), bookmark(2, "b")] });
    let r = s.load_more().expect("more to load");
    assert_eq!(r.offset, 2);
    assert_eq!(r.scope, Scope::Archived);
    // A page repeating an id replaces the earlier bookmark.
    s.page_loaded(Page { total: 3, items: vec![bookmark(2, "b2"), bookmark(3, "c")] });
    assert_eq!(s.get(2).unwrap().title, "b2");
    assert_eq!(s.delete_title(3), "c");
    assert_eq!(s.delete_title(9), "");
    assert!(s.load_more().is_none());
}

#[test]
fn empty_total_keeps_asking() {
    let mut s = ListState::new(Scope::Active);
    s.refresh().unwrap();
    s.page_loaded(Page { total: 0, items: vec![] });
    assert_eq!(s.load_more().unwrap().offset, 0);
}

#[test]
fn search_sets_query_and_failure_unblocks() {
    let mut s = ListState::new(Scope::Active);
    let r = s.search("#rust".to_string()).unwrap();
    assert_eq!(r.query.as_deref(), Some("#rust"));
    assert!(s.search("x".to_string()).is_none());
    s.load_failed();
    let r = s.refresh().unwrap();
    assert_eq!(r.query.as_deref(), Some("x"));
}

#[test]
fn scope_texts() {
    assert_eq!(empty_description(Scope::Archived), "Nothing archived yet.");
    assert_eq!(
        empty_description(Scope::Active),
        "Add one with the + button, or adjust your search."
    );
    assert_eq!(archive_done_message(Scope::Archived), "Unarchived");
    assert_eq!(archive_done_message(Scope::Active), "Archived");
}

#[test]
fn tag_list_paging() {
    let mut t = TagListState::new();
    assert_eq!(t.refresh(), Some(0));
    assert_eq!(t.load_more(), None);
    assert!(t.can_count(100));
    t.page_loaded(150, 100);
    assert_eq!(t.load_more(), Some(100));
    t.page_loaded(150, 50);
    assert_eq!(t.load_more(), None);
    assert_eq!(t.refresh(), Some(0));
    t.load_failed();
    assert_eq!(t.load_more(), Some(0));
}
