use anchorage::api::{
    auth_header, describe_http_failure, endpoint_url, list_params, normalize_base_url, ApiError,
    Failure, HttpFailure, UnreadFilter, PAGE_LIMIT,
};

#[test]
fn unread_filter_param() {
    assert_eq!(UnreadFilter::All.param(), None);
    assert_eq!(UnreadFilter::Unread.param(), Some("yes"));
    assert_eq!(UnreadFilter::Read.param(), Some("no"));
    assert_eq!(UnreadFilter::default(), UnreadFilter::All);
}

fn failure(status: Option<u16>, connect: bool, timeout: bool) -> HttpFailure {
    HttpFailure { status, connect, timeout, detail: "boom".to_string() }
}

#[test]
fn http_failures_become_hints() {
    assert_eq!(
        describe_http_failure(&failure(Some(401), false, false)),
        "Authentication failed \u{2014} check the API token"
    );
    assert_eq!(
        describe_http_failure(&failure(Some(403), true, false)),
        "Authentication failed \u{2014} check the API token"
    );
    assert_eq!(
        describe_http_failure(&failure(Some(404), false, false)),
        "Not found \u{2014} check the server URL"
    );
    assert_eq!(describe_http_failure(&failure(Some(500), false, false)), "Server returned HTTP 500");
    assert_eq!(describe_http_failure(&failure(Some(0), false, false)), "Server returned HTTP 0");
    assert_eq!(
        describe_http_failure(&failure(None, true, false)),
        "Could not reach the server \u{2014} check the URL and your network"
    );
    assert_eq!(
        describe_http_failure(&failure(None, false, true)),
        "Could not reach the server \u{2014} check the URL and your network"
    );
    assert_eq!(describe_http_failure(&failure(None, false, false)), "Request failed: boom");
}

#[test]
fn api_error_carries_message() {
    let e = ApiError::from_failure(&Failure::Other("Error building URL".to_string()));
    assert_eq!(e.message(), "Error building URL");
    let e = ApiError::from_failure(&Failure::Http(failure(Some(502), false, false)));
    assert_eq!(e.message(), "Server returned HTTP 502");
}

fn owned(ps: Vec<(&'static str, String)>) -> Vec<(String, String)> {
    ps.into_iter().map(|(k, v)| (k.to_string(), v)).collect()
}

fn pairs(ps: &[(&str, &str)]) -> Vec<(String, String)> {
    ps.iter().map(|(k, v)| (k.to_string(), v.to_string())).collect()
}

#[test]
fn list_query_parameters() {
    assert_eq!(PAGE_LIMIT, 100);
    assert_eq!(
        owned(list_params(None, UnreadFilter::All, 0)),
        pairs(&[("limit", "100"), ("offset", "0")])
    );
    assert_eq!(
        owned(list_params(Some("#rust".to_string()), UnreadFilter::Unread, 200)),
        pairs(&[("limit", "100"), ("offset", "200"), ("q", "#rust"), ("unread", "yes")])
    );
    // A blank search is not sent; the text is sent as typed otherwise.
    assert_eq!(
        owned(list_params(Some("  ".to_string()), UnreadFilter::Read, -5)),
        pairs(&[("limit", "100"), ("offset", "-5"), ("unread", "no")])
    );
    assert_eq!(
        owned(list_params(Some(" x ".to_string()), UnreadFilter::All, 1)),
        pairs(&[("limit", "100"), ("offset", "1"), ("q", " x ")])
    );
}

#[test]
fn base_url_and_headers() {
    assert_eq!(normalize_base_url("https://ld.example.com///"), "https://ld.example.com");
    assert_eq!(normalize_base_url("https://ld.example.com"), "https://ld.example.com");
    assert_eq!(normalize_base_url("///"), "");
    assert_eq!(auth_header("abc"), "Token abc");
    assert_eq!(
        endpoint_url("https://ld.example.com", "/api/bookmarks/"),
        "https://ld.example.com/api/bookmarks/"
    );
}

#[test]
fn defaults_are_empty() {
    let c = anchorage::api::CheckResult::default();
    assert!(c.existing.is_none() && c.scraped_title.is_none() && c.suggested_tags.is_empty());
    let d = anchorage::api::BookmarkDraft::default();
    assert!(d.url.is_empty() && d.title.is_none() && d.tag_names.is_empty() && !d.unread);
}
