//! The rules of the connect page and the add/edit sheet: what input is
//! accepted, what is sent, and what a URL check fills in.

use vstd::prelude::*;
use vstd::string::StrSliceExecFns;
use crate::api::{opt_view, views, BookmarkDraft, CheckResult};
use crate::config::Credentials;
use crate::tags::{join_with_spaces, non_empty, non_empty_text, parse_tags, tags_of};
use crate::text::{has_prefix, join, starts_with, trim, trim_seq};
use crate::urls::{url_is_valid, url_parses};

verus! {

/// Why the add/edit sheet refuses to save.
#[derive(Clone, Copy, Debug, PartialEq, Eq, Structural)]
pub enum FormError {
    InvalidUrl,
}

impl FormError {
    /// The text shown in the sheet's banner.
    pub fn message(&self) -> (r: &'static str)
        ensures
            r@ == "Enter a valid URL first"@,
    {
        "Enter a valid URL first"
    }
}

/// Whether the sheet's URL field holds a URL that can be saved: non-blank
/// and accepted by the URL parser once trimmed.
pub open spec fn saveable_url(url: Seq<char>) -> bool {
    trim_seq(url).len() > 0 && url_parses(trim_seq(url))
}

/// The draft the sheet saves from its fields.
pub open spec fn draft_matches(
    d: BookmarkDraft,
    url: Seq<char>,
    title: Seq<char>,
    description: Seq<char>,
    notes: Seq<char>,
    tags: Seq<char>,
    unread: bool,
    shared: bool,
) -> bool {
    &&& d.url@ == trim_seq(url)
    &&& opt_view(d.title) == non_empty_text(title)
    &&& opt_view(d.description) == non_empty_text(description)
    &&& opt_view(d.notes) == non_empty_text(notes)
    &&& views(d.tag_names@) == tags_of(tags)
    &&& d.unread == unread
    &&& d.shared == shared
}

/// The bookmark draft from the sheet's fields: the trimmed URL, the trimmed
/// title, description and notes (absent when blank), the parsed tags and the
/// two switches; refused when the URL is blank or does not parse.
pub fn draft_from_form(
    url: &str,
    title: &str,
    description: &str,
    notes: &str,
    tags: &str,
    unread: bool,
    shared: bool,
) -> (r: Result<BookmarkDraft, FormError>)
    ensures
        r is Ok <==> saveable_url(url@),
        r matches Ok(d) ==> draft_matches(d, url@, title@, description@, notes@, tags@, unread, shared),
{
    let u = trim(url);
    if u.unicode_len() == 0 || !url_is_valid(u) {
        return Err(FormError::InvalidUrl);
    }
    Ok(
        BookmarkDraft {
            url: u.to_owned(),
            title: non_empty(title),
            description: non_empty(description),
            notes: non_empty(notes),
            tag_names: parse_tags(tags),
            unread,
            shared,
        },
    )
}

/// Why the connect page refuses to connect.
#[derive(Clone, Copy, Debug, PartialEq, Eq, Structural)]
pub enum ConnectError {
    MissingField,
    InvalidUrl,
}

/// The toast for a refused connect.
pub open spec fn connect_error_text(e: ConnectError) -> Seq<char> {
    match e {
        ConnectError::MissingField => "Both the URL and token are required"@,
        ConnectError::InvalidUrl => "That doesn't look like a valid URL"@,
    }
}

impl ConnectError {
    /// The text of the toast.
    pub fn message(&self) -> (r: &'static str)
        ensures
            r@ == connect_error_text(*self),
    {
        match self {
            ConnectError::MissingField => "Both the URL and token are required",
            ConnectError::InvalidUrl => "That doesn't look like a valid URL",
        }
    }
}

/// The outcome of the connect form for its two fields.
pub open spec fn connect_outcome(url: Seq<char>, token: Seq<char>) -> Result<
    (Seq<char>, Seq<char>),
    ConnectError,
> {
    if trim_seq(url).len() == 0 || trim_seq(token).len() == 0 {
        Err(ConnectError::MissingField)
    } else if !url_parses(trim_seq(url)) {
        Err(ConnectError::InvalidUrl)
    } else {
        Ok((trim_seq(url), trim_seq(token)))
    }
}

/// Checks the connect form: both fields are required, and the URL must
/// parse; the credentials to verify are the trimmed fields.
pub fn validate_connect(url: &str, token: &str) -> (r: Result<Credentials, ConnectError>)
    ensures
        match (r, connect_outcome(url@, token@)) {
            (Ok(c), Ok((u, t))) => c.url@ == u && c.token@ == t,
            (Err(e), Err(f)) => e == f,
            _ => false,
        },
{
    let u = trim(url);
    let t = trim(token);
    if u.unicode_len() == 0 || t.unicode_len() == 0 {
        return Err(ConnectError::MissingField);
    }
    if !url_is_valid(u) {
        return Err(ConnectError::InvalidUrl);
    }
    Ok(Credentials { url: u.to_owned(), token: t.to_owned() })
}

/// What a URL check fills into the sheet: new texts for the title,
/// description and tags fields (`None` leaves a field as it is), and whether
/// the URL turned out to be bookmarked already.
#[derive(Clone, Debug)]
pub struct Prefill {
    pub title: Option<String>,
    pub description: Option<String>,
    pub tags: Option<String>,
    pub already_bookmarked: bool,
}

/// What a check fills in: only fields that are still empty. For a URL
/// already bookmarked, its title, description and tags (joined by spaces);
/// otherwise the scraped title and description, where the server found any.
pub open spec fn prefill_matches(
    p: Prefill,
    title: Seq<char>,
    description: Seq<char>,
    tags: Seq<char>,
    check: CheckResult,
) -> bool {
    match check.existing {
        Some(e) => {
            &&& p.already_bookmarked
            &&& opt_view(p.title) == (if title.len() == 0 {
                Some(e.title@)
            } else {
                None
            })
            &&& opt_view(p.description) == (if description.len() == 0 {
                Some(e.description@)
            } else {
                None
            })
            &&& opt_view(p.tags) == (if tags.len() == 0 {
                Some(join(views(e.tag_names@), seq![' ']))
            } else {
                None
            })
        },
        None => {
            &&& !p.already_bookmarked
            &&& opt_view(p.title) == (if title.len() == 0 {
                opt_view(check.scraped_title)
            } else {
                None
            })
            &&& opt_view(p.description) == (if description.len() == 0 {
                opt_view(check.scraped_description)
            } else {
                None
            })
            &&& p.tags is None
        },
    }
}

fn copy_opt(o: &Option<String>) -> (r: Option<String>)
    ensures
        opt_view(r) == opt_view(*o),
{
    match o {
        Some(s) => Some(s.clone()),
        None => None,
    }
}

/// The fields a URL check fills, given the current texts of the title,
/// description and tags fields.
pub fn prefill_from_check(title: &str, description: &str, tags: &str, check: &CheckResult) -> (r:
    Prefill)
    ensures
        prefill_matches(r, title@, description@, tags@, *check),
{
    match &check.existing {
        Some(e) => Prefill {
            title: if title.unicode_len() == 0 {
                Some(e.title.clone())
            } else {
                None
            },
            description: if description.unicode_len() == 0 {
                Some(e.description.clone())
            } else {
                None
            },
            tags: if tags.unicode_len() == 0 {
                Some(join_with_spaces(&e.tag_names))
            } else {
                None
            },
            already_bookmarked: true,
        },
        None => Prefill {
            title: if title.unicode_len() == 0 {
                copy_opt(&check.scraped_title)
            } else {
                None
            },
            description: if description.unicode_len() == 0 {
                copy_opt(&check.scraped_description)
            } else {
                None
            },
            tags: None,
            already_bookmarked: false,
        },
    }
}

/// The toast after a successful save.
pub open spec fn saved_text(is_edit: bool) -> Seq<char> {
    if is_edit {
        "Bookmark updated"@
    } else {
        "Bookmark saved"@
    }
}

/// The toast after a successful save: an edit updates, an add saves.
pub fn saved_message(is_edit: bool) -> (r: &'static str)
    ensures
        r@ == saved_text(is_edit),
{
    if is_edit {
        "Bookmark updated"
    } else {
        "Bookmark saved"
    }
}

/// The title of the sheet.
pub open spec fn sheet_title_text(is_edit: bool) -> Seq<char> {
    if is_edit {
        "Edit bookmark"@
    } else {
        "Add bookmark"@
    }
}

/// The title of the add/edit sheet.
pub fn sheet_title(is_edit: bool) -> (r: &'static str)
    ensures
        r@ == sheet_title_text(is_edit),
{
    if is_edit {
        "Edit bookmark"
    } else {
        "Add bookmark"
    }
}


/// Whether clipboard text is taken as a link to add: it starts with
/// `http://` or `https://`.
pub open spec fn is_link_text(s: Seq<char>) -> bool {
    has_prefix(s, "http://"@) || has_prefix(s, "https://"@)
}

/// The URL the add sheet is opened with from the clipboard: the clipboard
/// text when it is a link, else nothing.
pub fn pasted_url(clipboard: Option<String>) -> (r: Option<String>)
    ensures
        opt_view(r) == (match opt_view(clipboard) {
            Some(t) => if is_link_text(t) {
                Some(t)
            } else {
                None
            },
            None => None,
        }),
{
    match clipboard {
        Some(t) => {
            if starts_with(t.as_str(), "http://") || starts_with(t.as_str(), "https://") {
                Some(t)
            } else {
                None
            }
        },
        None => None,
    }
}


/// Law: each optional text of a saved draft comes from its own field alone:
/// the title, description and notes are the trimmed title, description and
/// notes fields, absent exactly when that field is blank; the URL is the
/// trimmed URL field, the tags are those read from the tags field, and the
/// switches are passed through.
pub proof fn law_draft_fields(
    d: BookmarkDraft,
    url: Seq<char>,
    title: Seq<char>,
    description: Seq<char>,
    notes: Seq<char>,
    tags: Seq<char>,
    unread: bool,
    shared: bool,
)
    requires
        draft_matches(d, url, title, description, notes, tags, unread, shared),
    ensures
        d.url@ == trim_seq(url),
        d.title is None <==> trim_seq(title).len() == 0,
        d.title matches Some(t) ==> t@ == trim_seq(title),
        d.description is None <==> trim_seq(description).len() == 0,
        d.description matches Some(t) ==> t@ == trim_seq(description),
        d.notes is None <==> trim_seq(notes).len() == 0,
        d.notes matches Some(t) ==> t@ == trim_seq(notes),
        views(d.tag_names@) == tags_of(tags),
        d.unread == unread,
        d.shared == shared,
{
}

/// Law: what a URL check fills into one field depends on that field alone:
/// two sheets that agree on a field get the same text for it, whatever the
/// other fields hold.
pub proof fn law_prefill_field_by_field(
    p1: Prefill,
    p2: Prefill,
    title1: Seq<char>,
    title2: Seq<char>,
    description1: Seq<char>,
    description2: Seq<char>,
    tags1: Seq<char>,
    tags2: Seq<char>,
    check: CheckResult,
)
    requires
        prefill_matches(p1, title1, description1, tags1, check),
        prefill_matches(p2, title2, description2, tags2, check),
    ensures
        title1 == title2 ==> opt_view(p1.title) == opt_view(p2.title),
        description1 == description2 ==> opt_view(p1.description) == opt_view(p2.description),
        tags1 == tags2 ==> opt_view(p1.tags) == opt_view(p2.tags),
        p1.already_bookmarked == p2.already_bookmarked,
{
}

/// Law: for a URL not bookmarked yet, an empty field gets exactly what the
/// server scraped for it (title for the title, description for the
/// description), a non-empty field is left alone, and the tags are never
/// touched.
pub proof fn law_prefill_new_url(
    p: Prefill,
    title: Seq<char>,
    description: Seq<char>,
    tags: Seq<char>,
    check: CheckResult,
)
    requires
        prefill_matches(p, title, description, tags, check),
        check.existing is None,
    ensures
        !p.already_bookmarked,
        title.len() == 0 ==> opt_view(p.title) == opt_view(check.scraped_title),
        title.len() > 0 ==> p.title is None,
        description.len() == 0 ==> opt_view(p.description) == opt_view(check.scraped_description),
        description.len() > 0 ==> p.description is None,
        p.tags is None,
{
}

/// Law: for a URL already bookmarked, each empty field gets that bookmark's
/// own value (its tags joined by spaces), and non-empty fields are left alone.
pub proof fn law_prefill_known_url(
    p: Prefill,
    title: Seq<char>,
    description: Seq<char>,
    tags: Seq<char>,
    check: CheckResult,
)
    requires
        prefill_matches(p, title, description, tags, check),
        check.existing is Some,
    ensures
        p.already_bookmarked,
        title.len() == 0 ==> opt_view(p.title) == Some(check.existing->0.title@),
        title.len() > 0 ==> p.title is None,
        description.len() == 0 ==> opt_view(p.description) == Some(
            check.existing->0.description@,
        ),
        description.len() > 0 ==> p.description is None,
        tags.len() == 0 ==> opt_view(p.tags) == Some(
            join(views(check.existing->0.tag_names@), seq![' ']),
        ),
        tags.len() > 0 ==> p.tags is None,
{
}

} // verus!
