use anchorage::api::{BookmarkView, CheckResult};
use anchorage::config::resolve_credentials;
use anchorage::forms::{
    draft_from_form, pasted_url, prefill_from_check, saved_message, sheet_title,
    validate_connect, ConnectError, FormError,
};

fn bookmark() -> BookmarkView {
    BookmarkView {
        id: 7,
        url: "https://example.com".into(),
        title: "Example".into(),
        description: "An example".into(),
        notes: String::new(),
        tag_names: vec!["a".into(), "b".into()],
        website_title: None,
        website_description: None,
        favicon_url: None,
        unread: false,
        shared: false,
        is_archived: false,
        date_added: String::new(),
    }
}

#[test]
fn draft_from_fields() {
    let d = draft_from_form(" https://x.org/a ", " T ", "  ", "", "a, #b a", true, false).unwrap();
    assert_eq!(d.url, "https://x.org/a");
    assert_eq!(d.title.as_deref(), Some("T"));
    assert_eq!(d.description, None);
    assert_eq!(d.notes, None);
    assert_eq!(d.tag_names, vec!["a", "b"]);
    assert!(d.unread);
    assert!(!d.shared);
}

#[test]
fn draft_refuses_bad_urls() {
    let e = draft_from_form("   ", "", "", "", "", false, false).unwrap_err();
    assert_eq!(e, FormError::InvalidUrl);
    assert_eq!(e.message(), "Enter a valid URL first");
    assert!(draft_from_form("no scheme", "", "", "", "", false, false).is_err());
}

#[test]
fn connect_validation() {
    let c = validate_connect(" https://ld.example.com ", " tok ").unwrap();
    assert_eq!(c.url, "https://ld.example.com");
    assert_eq!(c.token, "tok");
    assert_eq!(validate_connect("", "tok").unwrap_err(), ConnectError::MissingField);
    assert_eq!(validate_connect("https://x", " ").unwrap_err(), ConnectError::MissingField);
    assert_eq!(validate_connect("nope", "tok").unwrap_err(), ConnectError::InvalidUrl);
    assert_eq!(ConnectError::MissingField.message(), "Both the URL and token are required");
    assert_eq!(ConnectError::InvalidUrl.message(), "That doesn't look like a valid URL");
}

#[test]
fn check_prefills_empty_fields_only() {
    let existing = CheckResult {
        existing: Some(bookmark()),
        scraped_title: Some("Scraped".into()),
        scraped_description: None,
        suggested_tags: vec![],
    };
    let p = prefill_from_check("", "mine", "", &existing);
    assert!(p.already_bookmarked);
    assert_eq!(p.title.as_deref(), Some("Example"));
    assert_eq!(p.description, None);
    assert_eq!(p.tags.as_deref(), Some("a b"));

    let fresh = CheckResult {
        existing: None,
        scraped_title: Some("Scraped".into()),
        scraped_description: None,
        suggested_tags: vec!["x".into()],
    };
    let p = prefill_from_check("", "", "", &fresh);
    assert!(!p.already_bookmarked);
    assert_eq!(p.title.as_deref(), Some("Scraped"));
    assert_eq!(p.description, None);
    assert_eq!(p.tags, None);
    // A field holding only spaces is not empty and stays.
    let p = prefill_from_check(" ", "", "", &fresh);
    assert_eq!(p.title, None);
}

#[test]
fn sheet_texts_and_clipboard() {
    assert_eq!(saved_message(true), "Bookmark updated");
    assert_eq!(saved_message(false), "Bookmark saved");
    assert_eq!(sheet_title(true), "Edit bookmark");
    assert_eq!(sheet_title(false), "Add bookmark");
    assert_eq!(pasted_url(Some("https://a.b".into())), Some("https://a.b".to_string()));
    assert_eq!(pasted_url(Some("http://a.b".into())), Some("http://a.b".to_string()));
    assert_eq!(pasted_url(Some(" https://a.b".into())), None);
    assert_eq!(pasted_url(Some("ftp://a.b".into())), None);
    assert_eq!(pasted_url(None), None);
}

#[test]
fn credentials_resolution() {
    let c = resolve_credentials(Some("https://a".into()), "https://b".into(), "t".into()).unwrap();
    assert_eq!(c.url, "https://a");
    assert_eq!(c.token, "t");
    let c = resolve_credentials(Some(String::new()), "https://b".into(), "t".into()).unwrap();
    assert_eq!(c.url, "https://b");
    let c = resolve_credentials(None, "https://b".into(), "t".into()).unwrap();
    assert_eq!(c.url, "https://b");
    assert!(resolve_credentials(None, String::new(), "t".into()).is_none());
    assert!(resolve_credentials(Some("https://a".into()), String::new(), String::new()).is_none());
}
