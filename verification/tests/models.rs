use anchorage::api::BookmarkView;
use anchorage::models::{
    archive_action, display_description, display_notes, display_title, first_non_empty, host,
    read_action, resolve_favicon, short_date,
};

fn sample_bookmark() -> BookmarkView {
    BookmarkView {
        id: 1,
        url: "https://example.com".into(),
        title: String::new(),
        description: String::new(),
        notes: String::new(),
        tag_names: Vec::new(),
        website_title: None,
        website_description: None,
        favicon_url: None,
        unread: false,
        shared: false,
        is_archived: false,
        date_added: String::new(),
    }
}

#[test]
fn notes_snippet() {
    let mut b = sample_bookmark();
    b.notes = "first line\n\nsecond   line".into();
    assert_eq!(display_notes(&b), Some("first line second line".to_string()));
    b.notes = "   \n  ".into();
    assert_eq!(display_notes(&b), None);
    b.notes = String::new();
    assert_eq!(display_notes(&b), None);
}

#[test]
fn favicon_resolution() {
    let mut b = sample_bookmark();
    // No favicon.
    assert_eq!(resolve_favicon("https://ld.example.com", &b), None);
    b.favicon_url = Some("   ".into());
    assert_eq!(resolve_favicon("https://ld.example.com", &b), None);
    // Absolute URL is passed through.
    b.favicon_url = Some("https://ld.example.com/static/x.png".into());
    assert_eq!(
        resolve_favicon("https://ld.example.com", &b),
        Some("https://ld.example.com/static/x.png".to_string())
    );
    // Relative path is joined onto the base.
    b.favicon_url = Some("/static/favicons/y.png".into());
    assert_eq!(
        resolve_favicon("https://ld.example.com", &b),
        Some("https://ld.example.com/static/favicons/y.png".to_string())
    );
}

#[test]
fn host_extraction() {
    assert_eq!(host("https://news.ycombinator.com/item?id=1"), "news.ycombinator.com");
    assert_eq!(host("not a url"), "not a url");
}

#[test]
fn date_prefix() {
    assert_eq!(short_date("2026-07-14T09:46:23.006313Z"), "2026-07-14");
    assert_eq!(short_date("garbage"), "garbage");
}

#[test]
fn first_non_empty_picks() {
    assert_eq!(first_non_empty(["", "  ", "x"]), "x");
    assert_eq!(first_non_empty(["", ""]), "");
}

#[test]
fn read_action_reflects_click_not_state() {
    // Unread bookmark → the action reads it (Mark as read).
    assert_eq!(read_action(true).0, "Mark as read");
    // Read bookmark → the action unreads it.
    assert_eq!(read_action(false).0, "Mark as unread");
    // Icons differ so the two states are visually distinct.
    assert_ne!(read_action(true).1, read_action(false).1);
}

#[test]
fn archive_action_depends_on_scope() {
    assert_eq!(archive_action(true).0, "Unarchive");
    assert_eq!(archive_action(false).0, "Archive");
    assert_ne!(archive_action(true).1, archive_action(false).1);
}

#[test]
fn title_falls_back_to_website_title_then_url() {
    let mut b = sample_bookmark();
    assert_eq!(display_title(&b), "https://example.com");
    b.website_title = Some("Example Domain".into());
    assert_eq!(display_title(&b), "Example Domain");
    b.title = "  ".into();
    assert_eq!(display_title(&b), "Example Domain");
    b.title = " Mine ".into();
    // The chosen candidate is returned as written, untrimmed.
    assert_eq!(display_title(&b), " Mine ");
}

#[test]
fn description_falls_back_and_hides_when_blank() {
    let mut b = sample_bookmark();
    assert_eq!(display_description(&b), None);
    b.website_description = Some("\t".into());
    assert_eq!(display_description(&b), None);
    b.website_description = Some("scraped".into());
    assert_eq!(display_description(&b), Some("scraped".to_string()));
    b.description = "own".into();
    assert_eq!(display_description(&b), Some("own".to_string()));
}

#[test]
fn notes_collapse_unicode_whitespace() {
    let mut b = sample_bookmark();
    b.notes = "\u{a0}a\u{2003}b\r\nc ".into();
    assert_eq!(display_notes(&b), Some("a b c".to_string()));
}

#[test]
fn short_date_edge_cases() {
    // No `T` at all, or a prefix of the wrong shape, leaves the input as is.
    assert_eq!(short_date(""), "");
    assert_eq!(short_date("2026/07/14T00:00"), "2026/07/14T00:00");
    assert_eq!(short_date("26-07-14T00:00"), "26-07-14T00:00");
    // Only the first `T` splits.
    assert_eq!(short_date("2026-07-14TT"), "2026-07-14");
    // Ten bytes with a `-` as fifth byte, even if not a real date.
    assert_eq!(short_date("abcd-efghiT"), "abcd-efghi");
    // Byte length, not character count: é is two bytes.
    assert_eq!(short_date("2026-07-1éT"), "2026-07-1éT");
}

#[test]
fn favicon_trims_and_checks_scheme() {
    let mut b = sample_bookmark();
    b.favicon_url = Some("  http://x.org/f.ico \n".into());
    assert_eq!(
        resolve_favicon("https://ld.example.com", &b),
        Some("http://x.org/f.ico".to_string())
    );
    b.favicon_url = Some("static/z.png".into());
    assert_eq!(
        resolve_favicon("https://ld.example.com/sub/", &b),
        Some("https://ld.example.com/sub/static/z.png".to_string())
    );
    // A base that does not parse gives nothing for a relative path.
    assert_eq!(resolve_favicon("not a url", &b), None);
}

#[test]
fn host_without_a_host_falls_back() {
    assert_eq!(host("data:text/plain,Stuff"), "data:text/plain,Stuff");
    assert_eq!(host("ftp://rms@example.com/x"), "example.com");
}
