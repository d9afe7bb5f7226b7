//! The data the client exchanges with a Linkding server, as plain values:
//! bookmarks, pages, URL checks, drafts, and the user-facing error.

use vstd::prelude::*;
use vstd::string::{StrSliceExecFns, StringExecFns};
use crate::numerals::{decimal, i32_to_string, signed_decimal, u64_to_string};
use crate::text::{is_blank, strip_end, strip_end_seq, trim};

verus! {

/// Default page size for list requests.
pub const PAGE_LIMIT: i32 = 100;

/// Read-status filter for the bookmark list, mapping to Linkding's `unread`
/// query parameter.
#[derive(Clone, Copy, Debug, PartialEq, Eq, Structural)]
pub enum UnreadFilter {
    All,
    Unread,
    Read,
}

/// The `unread` query value for a filter, or `None` to omit the parameter.
pub open spec fn unread_param_spec(f: UnreadFilter) -> Option<Seq<char>> {
    match f {
        UnreadFilter::All => None,
        UnreadFilter::Unread => Some("yes"@),
        UnreadFilter::Read => Some("no"@),
    }
}

impl UnreadFilter {
    /// The `unread` query value to send, or `None` to omit the parameter (All).
    pub fn param(self) -> (r: Option<&'static str>)
        ensures
            r matches Some(v) ==> unread_param_spec(self) == Some(v@),
            r is None ==> unread_param_spec(self) is None,
    {
        match self {
            UnreadFilter::All => None,
            UnreadFilter::Unread => Some("yes"),
            UnreadFilter::Read => Some("no"),
        }
    }
}

impl Default for UnreadFilter {
    /// The list shows every bookmark unless asked otherwise.
    fn default() -> (r: Self)
        ensures
            r == UnreadFilter::All,
    {
        UnreadFilter::All
    }
}

/// An owned view of a bookmark for the UI layer.
#[derive(Clone, Debug)]
pub struct BookmarkView {
    pub id: i32,
    pub url: String,
    pub title: String,
    pub description: String,
    pub notes: String,
    pub tag_names: Vec<String>,
    pub website_title: Option<String>,
    pub website_description: Option<String>,
    pub favicon_url: Option<String>,
    pub unread: bool,
    pub shared: bool,
    pub is_archived: bool,
    pub date_added: String,
}

/// A page of bookmarks with the total count (for pagination).
#[derive(Clone, Debug)]
pub struct Page {
    pub total: i32,
    pub items: Vec<BookmarkView>,
}

/// The result of checking a URL: the existing bookmark (if any), scraped
/// title/description, and suggested tags.
#[derive(Clone, Debug)]
pub struct CheckResult {
    pub existing: Option<BookmarkView>,
    pub scraped_title: Option<String>,
    pub scraped_description: Option<String>,
    pub suggested_tags: Vec<String>,
}

impl Default for CheckResult {
    /// A check that found nothing.
    fn default() -> (r: Self)
        ensures
            r.existing is None,
            r.scraped_title is None,
            r.scraped_description is None,
            r.suggested_tags@.len() == 0,
    {
        CheckResult {
            existing: None,
            scraped_title: None,
            scraped_description: None,
            suggested_tags: Vec::new(),
        }
    }
}

/// A user-editable bookmark draft shared by the create and edit flows.
/// `title`/`description` of `None` mean "let the server scrape it".
#[derive(Clone, Debug)]
pub struct BookmarkDraft {
    pub url: String,
    pub title: Option<String>,
    pub description: Option<String>,
    pub notes: Option<String>,
    pub tag_names: Vec<String>,
    pub unread: bool,
    pub shared: bool,
}

impl Default for BookmarkDraft {
    /// An empty draft: no URL, nothing to send but the two switches off.
    fn default() -> (r: Self)
        ensures
            r.url@.len() == 0,
            r.title is None,
            r.description is None,
            r.notes is None,
            r.tag_names@.len() == 0,
            !r.unread,
            !r.shared,
    {
        BookmarkDraft {
            url: String::new(),
            title: None,
            description: None,
            notes: None,
            tag_names: Vec::new(),
            unread: false,
            shared: false,
        }
    }
}

/// The text of an optional string, empty when absent.
pub open spec fn opt_text(o: Option<String>) -> Seq<char> {
    match o {
        Some(s) => s@,
        None => Seq::empty(),
    }
}

/// An optional string by its view.
pub open spec fn opt_view(o: Option<String>) -> Option<Seq<char>> {
    match o {
        Some(s) => Some(s@),
        None => None,
    }
}

/// The views of a list of strings.
pub open spec fn views(v: Seq<String>) -> Seq<Seq<char>> {
    v.map_values(|s: String| s@)
}


/// What went wrong with an HTTP exchange, as the client sees it: the status
/// the server answered with (if it answered), whether the server could not be
/// reached at all (connect or timeout), and the error's own description.
#[derive(Clone, Debug)]
pub struct HttpFailure {
    pub status: Option<u16>,
    pub connect: bool,
    pub timeout: bool,
    pub detail: String,
}

/// A failed request: an HTTP failure, or another error with its description.
#[derive(Clone, Debug)]
pub enum Failure {
    Http(HttpFailure),
    Other(String),
}

/// Errors surfaced to the UI, carrying the human-readable message.
#[derive(Clone, Debug)]
pub enum ApiError {
    Message(String),
}

/// The user-facing hint for an HTTP failure: authentication, not found, other
/// status, unreachable server, or the error's own description.
pub open spec fn http_failure_text(f: HttpFailure) -> Seq<char> {
    match f.status {
        Some(code) => if code == 401 || code == 403 {
            "Authentication failed \u{2014} check the API token"@
        } else if code == 404 {
            "Not found \u{2014} check the server URL"@
        } else {
            "Server returned HTTP "@ + decimal(code as nat)
        },
        None => if f.connect || f.timeout {
            "Could not reach the server \u{2014} check the URL and your network"@
        } else {
            "Request failed: "@ + f.detail@
        },
    }
}

/// The message of a failed request.
pub open spec fn failure_text(f: Failure) -> Seq<char> {
    match f {
        Failure::Http(h) => http_failure_text(h),
        Failure::Other(d) => d@,
    }
}

/// Turn an HTTP failure into a user-facing hint (auth vs. network vs. other).
pub fn describe_http_failure(f: &HttpFailure) -> (r: String)
    ensures
        r@ == http_failure_text(*f),
{
    match f.status {
        Some(code) => {
            if code == 401 || code == 403 {
                "Authentication failed \u{2014} check the API token".to_owned()
            } else if code == 404 {
                "Not found \u{2014} check the server URL".to_owned()
            } else {
                let mut m = "Server returned HTTP ".to_owned();
                let digits = u64_to_string(code as u64);
                m.append(digits.as_str());
                m
            }
        },
        None => {
            if f.connect || f.timeout {
                "Could not reach the server \u{2014} check the URL and your network".to_owned()
            } else {
                let mut m = "Request failed: ".to_owned();
                m.append(f.detail.as_str());
                m
            }
        },
    }
}

impl ApiError {
    /// The error a failed request is reported as.
    pub fn from_failure(f: &Failure) -> (r: ApiError)
        ensures
            r.text() == failure_text(*f),
    {
        match f {
            Failure::Http(h) => ApiError::Message(describe_http_failure(h)),
            Failure::Other(d) => ApiError::Message(d.clone()),
        }
    }

    /// The message, by its view.
    pub open spec fn text(&self) -> Seq<char> {
        match self {
            ApiError::Message(m) => m@,
        }
    }

    /// The human-readable message (what the error displays as).
    pub fn message(&self) -> (r: &str)
        ensures
            r@ == self.text(),
    {
        match self {
            ApiError::Message(m) => m.as_str(),
        }
    }
}

/// The base URL a client works against: the given URL without trailing `/`s.
pub fn normalize_base_url(url: &str) -> (r: String)
    ensures
        r@ == strip_end_seq(url@, '/'),
{
    strip_end(url, '/').to_owned()
}

/// The `Authorization` header value for an API token.
pub fn auth_header(token: &str) -> (r: String)
    ensures
        r@ == "Token "@ + token@,
{
    let mut h = "Token ".to_owned();
    h.append(token);
    h
}

/// The URL of an API endpoint: the base URL followed by the endpoint's path.
pub fn endpoint_url(base_url: &str, path: &str) -> (r: String)
    ensures
        r@ == base_url@ + path@,
{
    let mut u = base_url.to_owned();
    u.append(path);
    u
}

/// Query parameters by their views.
pub open spec fn param_views(ps: Seq<(&'static str, String)>) -> Seq<(Seq<char>, Seq<char>)> {
    ps.map_values(|p: (&'static str, String)| (p.0@, p.1@))
}

/// The query of a list request: the page size and offset, the search text
/// unless it is absent or blank, and the `unread` filter unless it is `All`.
pub open spec fn list_params_spec(query: Option<Seq<char>>, filter: UnreadFilter, offset: i32) -> Seq<
    (Seq<char>, Seq<char>),
> {
    let base = seq![("limit"@, signed_decimal(PAGE_LIMIT as int)), ("offset"@, signed_decimal(offset as int))];
    let with_q = match query {
        Some(q) => if !is_blank(q) {
            base.push(("q"@, q))
        } else {
            base
        },
        None => base,
    };
    match unread_param_spec(filter) {
        Some(u) => with_q.push(("unread"@, u)),
        None => with_q,
    }
}

/// Law: a list request always sends the page size (`limit=100`) and the
/// offset first; then the search text as typed (`q`) exactly when one is
/// given and it is not blank; then `unread=yes` for the unread filter,
/// `unread=no` for the read filter, and nothing for all bookmarks.
pub proof fn law_list_query(query: Option<Seq<char>>, filter: UnreadFilter, offset: i32)
    ensures
        ({
            let ps = list_params_spec(query, filter, offset);
            let q_sent = query is Some && !is_blank(query->0);
            &&& ps.len() == 2 + (if q_sent {
                1int
            } else {
                0int
            }) + (if filter == UnreadFilter::All {
                0int
            } else {
                1int
            })
            &&& ps[0] == ("limit"@, seq!['1', '0', '0'])
            &&& ps[1] == ("offset"@, signed_decimal(offset as int))
            &&& q_sent ==> ps[2] == ("q"@, query->0)
            &&& filter == UnreadFilter::Unread ==> ps.last() == ("unread"@, "yes"@)
            &&& filter == UnreadFilter::Read ==> ps.last() == ("unread"@, "no"@)
        }),
{
    reveal_with_fuel(decimal, 3);
    assert(decimal(100) =~= seq!['1', '0', '0']);
}

/// The query parameters of a list request for `query`, `filter` and `offset`.
pub fn list_params(query: Option<String>, filter: UnreadFilter, offset: i32) -> (r: Vec<(&'static str, String)>)
    ensures
        param_views(r@) == list_params_spec(opt_view(query), filter, offset),
{
    let mut params: Vec<(&'static str, String)> = Vec::new();
    params.push(("limit", i32_to_string(PAGE_LIMIT)));
    params.push(("offset", i32_to_string(offset)));
    let ghost base = seq![("limit"@, signed_decimal(PAGE_LIMIT as int)), ("offset"@, signed_decimal(offset as int))];
    assert(param_views(params@) =~= base);
    match query {
        Some(q) => {
            if trim(q.as_str()).unicode_len() != 0 {
                let ghost qv = q@;
                params.push(("q", q));
                assert(param_views(params@) =~= base.push(("q"@, qv)));
            }
        },
        None => {},
    }
    let ghost with_q = param_views(params@);
    match filter.param() {
        Some(u) => {
            params.push(("unread", u.to_owned()));
            assert(param_views(params@) =~= with_q.push(("unread"@, u@)));
        },
        None => {},
    }
    assert(param_views(params@) =~= list_params_spec(opt_view(query), filter, offset));
    params
}

} // verus!
