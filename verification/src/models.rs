//! Presentation rules derived from a bookmark: titles and snippets with their
//! fallbacks, host and date labels, favicon locations, and action labels.

use vstd::prelude::*;
use vstd::string::StrSliceExecFns;
use crate::api::{opt_text, opt_view, BookmarkView};
use crate::text::{
    join, has_prefix, is_blank, is_ws, starts_with, trim, trim_seq, trim_start_seq,
};
use crate::urls::{url_host, url_host_of, url_join, url_joined};
use vstd::utf8::encode_utf8;

verus! {

/// The first candidate that is not blank, or the empty string.
pub open spec fn first_non_blank(cands: Seq<Seq<char>>) -> Seq<char>
    decreases cands.len(),
{
    if cands.len() == 0 {
        Seq::empty()
    } else if !is_blank(cands[0]) {
        cands[0]
    } else {
        first_non_blank(cands.drop_first())
    }
}

proof fn lemma_first_non_blank_skip(cands: Seq<Seq<char>>, i: int)
    requires
        0 <= i <= cands.len(),
        forall|k: int| 0 <= k < i ==> is_blank(#[trigger] cands[k]),
    ensures
        first_non_blank(cands) == first_non_blank(cands.subrange(i, cands.len() as int)),
    decreases i,
{
    if i > 0 {
        let t = cands.drop_first();
        assert forall|k: int| 0 <= k < i - 1 implies is_blank(#[trigger] t[k]) by {
            assert(t[k] == cands[k + 1]);
        }
        lemma_first_non_blank_skip(t, i - 1);
        assert(t.subrange(i - 1, t.len() as int) =~= cands.subrange(i, cands.len() as int));
    } else {
        assert(cands.subrange(0, cands.len() as int) =~= cands);
    }
}

/// The first candidate that is not blank (returned untrimmed), or `""`.
pub fn first_non_empty<'a, const N: usize>(candidates: [&'a str; N]) -> (r: &'a str)
    ensures
        r@ == first_non_blank(candidates@.map_values(|c: &str| c@)),
{
    let ghost cs = candidates@.map_values(|c: &str| c@);
    let mut i: usize = 0;
    while i < N
        invariant
            cs == candidates@.map_values(|c: &str| c@),
            cs.len() == N,
            i <= N,
            forall|k: int| 0 <= k < i ==> is_blank(#[trigger] cs[k]),
        decreases N - i,
    {
        let c = candidates[i];
        assert(cs[i as int] == c@);
        if trim(c).unicode_len() != 0 {
            proof {
                lemma_first_non_blank_skip(cs, i as int);
            }
            return c;
        }
        i = i + 1;
    }
    proof {
        lemma_first_non_blank_skip(cs, i as int);
        assert(cs.subrange(i as int, cs.len() as int) =~= Seq::<Seq<char>>::empty());
        reveal_strlit("");
    }
    ""
}

/// The title shown for a bookmark: `title`, else `website_title`, else the URL.
pub open spec fn title_text(b: BookmarkView) -> Seq<char> {
    first_non_blank(seq![b.title@, opt_text(b.website_title), b.url@])
}

fn opt_str(o: &Option<String>) -> (r: &str)
    ensures
        r@ == opt_text(*o),
{
    match o {
        Some(s) => s.as_str(),
        None => {
            proof {
                reveal_strlit("");
            }
            ""
        },
    }
}

/// The title to show for a bookmark, falling back `title` → `website_title`
/// → the URL itself.
pub fn display_title(b: &BookmarkView) -> (r: String)
    ensures
        r@ == title_text(*b),
{
    let arr = [b.title.as_str(), opt_str(&b.website_title), b.url.as_str()];
    let t = first_non_empty(arr);
    proof {
        assert(arr@.map_values(|c: &str| c@) =~= seq![b.title@, opt_text(b.website_title), b.url@]);
    }
    t.to_owned()
}


/// Law: a bookmark's title is its own title when that is not blank; else the
/// website title when that is present and not blank; else the URL when that
/// is not blank; else empty.
pub proof fn law_title_fallback(b: BookmarkView)
    ensures
        !is_blank(b.title@) ==> title_text(b) == b.title@,
        is_blank(b.title@) && !is_blank(opt_text(b.website_title)) ==> title_text(b) == opt_text(
            b.website_title,
        ),
        is_blank(b.title@) && (b.website_title is None || is_blank(opt_text(b.website_title)))
            && !is_blank(b.url@) ==> title_text(b) == b.url@,
        is_blank(b.title@) && is_blank(opt_text(b.website_title)) && is_blank(b.url@) ==> title_text(
            b,
        ).len() == 0,
{
    let c = seq![b.title@, opt_text(b.website_title), b.url@];
    let c1 = c.drop_first();
    let c2 = c1.drop_first();
    let c3 = c2.drop_first();
    assert(c1 =~= seq![opt_text(b.website_title), b.url@]);
    assert(c2 =~= seq![b.url@]);
    assert(c3 =~= Seq::<Seq<char>>::empty());
    assert(c[0] == b.title@ && c1[0] == opt_text(b.website_title) && c2[0] == b.url@);
    assert(first_non_blank(c3) == Seq::<char>::empty());
    assert(first_non_blank(c2) == (if !is_blank(c2[0]) { c2[0] } else { first_non_blank(c3) }));
    assert(first_non_blank(c1) == (if !is_blank(c1[0]) { c1[0] } else { first_non_blank(c2) }));
    assert(first_non_blank(c) == (if !is_blank(c[0]) { c[0] } else { first_non_blank(c1) }));
}

/// Law: the description snippet is the bookmark's description when that is
/// not blank, else the website description when present and not blank, and
/// there is none when both are blank.
pub proof fn law_description_fallback(b: BookmarkView)
    ensures
        !is_blank(b.description@) ==> description_text(b) == Some(b.description@),
        is_blank(b.description@) && !is_blank(opt_text(b.website_description))
            ==> description_text(b) == Some(opt_text(b.website_description)),
        is_blank(b.description@) && is_blank(opt_text(b.website_description)) ==> description_text(
            b,
        ) is None,
{
    let c = seq![b.description@, opt_text(b.website_description)];
    let c1 = c.drop_first();
    let c2 = c1.drop_first();
    assert(c1 =~= seq![opt_text(b.website_description)]);
    assert(c2 =~= Seq::<Seq<char>>::empty());
    assert(c[0] == b.description@ && c1[0] == opt_text(b.website_description));
    assert(first_non_blank(c2) == Seq::<char>::empty());
    assert(first_non_blank(c1) == (if !is_blank(c1[0]) { c1[0] } else { first_non_blank(c2) }));
    assert(first_non_blank(c) == (if !is_blank(c[0]) { c[0] } else { first_non_blank(c1) }));
    let f = first_non_blank(c);
    if f.len() == 0 {
        assert(trim_start_seq(f) == f);
    }
    if !is_blank(b.description@) && b.description@.len() == 0 {
        assert(trim_start_seq(b.description@) == b.description@);
    }
    let w = opt_text(b.website_description);
    if !is_blank(w) && w.len() == 0 {
        assert(trim_start_seq(w) == w);
    }
}

/// The description snippet: `description`, else `website_description`;
/// `None` when both are blank.
pub open spec fn description_text(b: BookmarkView) -> Option<Seq<char>> {
    let c = first_non_blank(seq![b.description@, opt_text(b.website_description)]);
    if c.len() == 0 {
        None
    } else {
        Some(c)
    }
}

/// The description snippet, falling back `description` → `website_description`.
/// Returns `None` when neither is present (so the row can hide the label).
pub fn display_description(b: &BookmarkView) -> (r: Option<String>)
    ensures
        opt_view(r) == description_text(*b),
{
    let arr = [b.description.as_str(), opt_str(&b.website_description)];
    let candidate = first_non_empty(arr);
    proof {
        assert(arr@.map_values(|c: &str| c@) =~= seq![b.description@, opt_text(b.website_description)]);
    }
    if candidate.unicode_len() == 0 {
        None
    } else {
        Some(candidate.to_owned())
    }
}

/// The maximal runs of non-whitespace characters of `s`, in order
/// (what `str::split_whitespace` yields).
pub open spec fn words(s: Seq<char>) -> Seq<Seq<char>>
    decreases s.len(),
{
    if s.len() == 0 {
        Seq::empty()
    } else {
        let w = words(s.drop_last());
        let c = s.last();
        if is_ws(c) {
            w
        } else if s.len() >= 2 && !is_ws(s[s.len() - 2]) {
            w.update(w.len() - 1, w.last().push(c))
        } else {
            w.push(seq![c])
        }
    }
}

/// A string whose last character is not whitespace ends inside a word.
proof fn lemma_words_last(s: Seq<char>)
    ensures
        s.len() > 0 && !is_ws(s.last()) ==> words(s).len() > 0,
    decreases s.len(),
{
    if s.len() > 0 {
        lemma_words_last(s.drop_last());
    }
}

proof fn lemma_join_extend_last(parts: Seq<Seq<char>>, sep: Seq<char>, c: char)
    requires
        parts.len() > 0,
    ensures
        join(parts.update(parts.len() - 1, parts.last().push(c)), sep) == join(parts, sep).push(c),
{
    let u = parts.update(parts.len() - 1, parts.last().push(c));
    if parts.len() > 1 {
        assert(u.drop_last() =~= parts.drop_last());
        assert(join(u, sep) =~= join(parts, sep).push(c));
    }
}

/// `s` with its runs of whitespace collapsed: the words of `s` joined by
/// single spaces.
pub open spec fn collapse_ws(s: Seq<char>) -> Seq<char> {
    join(words(s), seq![' '])
}

/// A line whose only whitespace is single spaces between other characters.
pub open spec fn is_single_spaced(c: Seq<char>) -> bool {
    forall|i: int|
        0 <= i < c.len() && is_ws(#[trigger] c[i]) ==> c[i] == ' ' && 0 < i && i + 1 < c.len()
            && !is_ws(c[i - 1]) && !is_ws(c[i + 1])
}

/// Words are non-empty and hold no whitespace.
proof fn lemma_words_wf(s: Seq<char>)
    ensures
        forall|k: int| 0 <= k < words(s).len() ==> #[trigger] words(s)[k].len() > 0,
        forall|k: int, j: int|
            0 <= k < words(s).len() && 0 <= j < words(s)[k].len() ==> !is_ws(
                #[trigger] words(s)[k][j],
            ),
    decreases s.len(),
{
    if s.len() > 0 {
        let t = s.drop_last();
        lemma_words_wf(t);
        lemma_words_last(t);
        let w = words(t);
        let c = s.last();
        let v = words(s);
        if !is_ws(c) {
            if s.len() >= 2 && !is_ws(s[s.len() - 2]) {
                assert(t.last() == s[s.len() - 2]);
                assert forall|k: int, j: int| 0 <= k < v.len() && 0 <= j < v[k].len() implies !is_ws(
                    #[trigger] v[k][j],
                ) by {
                    if k == w.len() - 1 && j == w.last().len() {
                        assert(v[k][j] == c);
                    } else if k == w.len() - 1 {
                        assert(v[k][j] == w[k][j]);
                    } else {
                        assert(v[k] == w[k]);
                    }
                }
            } else {
                assert forall|k: int, j: int| 0 <= k < v.len() && 0 <= j < v[k].len() implies !is_ws(
                    #[trigger] v[k][j],
                ) by {
                    if k < w.len() {
                        assert(v[k] == w[k]);
                    }
                }
            }
        }
    }
}

proof fn lemma_join_single_spaced(parts: Seq<Seq<char>>)
    requires
        forall|k: int| 0 <= k < parts.len() ==> #[trigger] parts[k].len() > 0,
        forall|k: int, j: int|
            0 <= k < parts.len() && 0 <= j < parts[k].len() ==> !is_ws(#[trigger] parts[k][j]),
    ensures
        is_single_spaced(join(parts, seq![' '])),
        parts.len() > 0 ==> join(parts, seq![' ']).len() > 0 && !is_ws(join(parts, seq![' '])[0])
            && !is_ws(join(parts, seq![' ']).last()),
    decreases parts.len(),
{
    if parts.len() == 1 {
        let p = parts[0];
        assert(p.len() > 0);
        assert forall|i: int| 0 <= i < p.len() && is_ws(#[trigger] p[i]) implies false by {
            assert(!is_ws(parts[0][i]));
        }
        assert(!is_ws(parts[0][p.len() - 1]));
    } else if parts.len() > 1 {
        let d = parts.drop_last();
        assert forall|k: int| 0 <= k < d.len() implies #[trigger] d[k].len() > 0 by {
            assert(d[k] == parts[k]);
        }
        assert forall|k: int, j: int| 0 <= k < d.len() && 0 <= j < d[k].len() implies !is_ws(
            #[trigger] d[k][j],
        ) by {
            assert(d[k] == parts[k]);
        }
        lemma_join_single_spaced(d);
        let jd = join(d, seq![' ']);
        let l = parts.last();
        assert(l.len() > 0);
        assert forall|j: int| 0 <= j < l.len() implies !is_ws(#[trigger] l[j]) by {
            assert(!is_ws(parts[parts.len() - 1][j]));
        }
        let c = join(parts, seq![' ']);
        assert(c == jd + seq![' '] + l);
        assert forall|i: int| 0 <= i < c.len() && is_ws(#[trigger] c[i]) implies c[i] == ' ' && 0
            < i && i + 1 < c.len() && !is_ws(c[i - 1]) && !is_ws(c[i + 1]) by {
            if i < jd.len() {
                assert(c[i] == jd[i]);
                assert(c[i - 1] == jd[i - 1]);
                assert(is_ws(jd[i]));
                assert(c[i + 1] == jd[i + 1]);
            } else if i == jd.len() {
                assert(c[i - 1] == jd.last());
                assert(c[i + 1] == l[0]);
            } else {
                assert(c[i] == l[i - jd.len() - 1]);
            }
        }
        assert(c[0] == jd[0]);
        assert(c.last() == l.last());
    }
}

/// Law: the notes snippet is a single line with single spaces: its only
/// whitespace is one space between two other characters.
pub proof fn law_notes_single_spaced(s: Seq<char>)
    ensures
        is_single_spaced(collapse_ws(s)),
{
    lemma_words_wf(s);
    lemma_join_single_spaced(words(s));
}

/// The notes snippet: the notes collapsed to a single spaced line; `None`
/// when nothing is left.
pub open spec fn notes_text(b: BookmarkView) -> Option<Seq<char>> {
    let c = collapse_ws(b.notes@);
    if c.len() == 0 {
        None
    } else {
        Some(c)
    }
}

fn collapse_whitespace(s: &str) -> (r: String)
    ensures
        r@ == collapse_ws(s@),
{
    let n = s.unicode_len();
    let mut out = String::new();
    let mut in_word = false;
    let mut any = false;
    let mut i: usize = 0;
    while i < n
        invariant
            n == s@.len(),
            i <= n,
            out@ == join(words(s@.subrange(0, i as int)), seq![' ']),
            in_word == (i > 0 && !is_ws(s@[i - 1])),
            any == (words(s@.subrange(0, i as int)).len() > 0),
        decreases n - i,
    {
        let c = s.get_char(i);
        let ghost pre = s@.subrange(0, i as int);
        let ghost next = s@.subrange(0, i + 1);
        assert(next.drop_last() =~= pre);
        assert(next.last() == c);
        if crate::text::is_whitespace(c) {
            in_word = false;
        } else {
            if in_word {
                proof {
                    assert(next[next.len() - 2] == s@[i - 1]);
                    lemma_words_last(pre);
                    assert(pre.last() == s@[i - 1]);
                    lemma_join_extend_last(words(pre), seq![' '], c);
                }
            } else {
                if any {
                    crate::text::push_char(&mut out, ' ');
                }
                proof {
                    if i > 0 {
                        assert(next[next.len() - 2] == s@[i - 1]);
                    }
                    let w = words(pre);
                    let wn = w.push(seq![c]);
                    assert(wn.drop_last() =~= w);
                    if w.len() == 0 {
                        assert(join(wn, seq![' ']) =~= seq![c]);
                    }
                }
            }
            crate::text::push_char(&mut out, c);
            in_word = true;
            any = true;
        }
        i = i + 1;
        proof {
            assert(out@ =~= join(words(next), seq![' ']));
        }
    }
    assert(s@.subrange(0, n as int) =~= s@);
    out
}

/// The notes snippet to show, or `None` when the bookmark has no notes (so the
/// row can hide the label): the raw text collapsed to a single spaced line.
pub fn display_notes(b: &BookmarkView) -> (r: Option<String>)
    ensures
        opt_view(r) == notes_text(*b),
{
    let collapsed = collapse_whitespace(b.notes.as_str());
    if collapsed.as_str().unicode_len() == 0 {
        None
    } else {
        Some(collapsed)
    }
}


/// The host label of a URL: its host when `url` can parse it and it has
/// one, else the raw text.
pub open spec fn host_text(url: Seq<char>) -> Seq<char> {
    match url_host_of(url) {
        Some(h) => h,
        None => url,
    }
}

/// The host portion of the URL (`https://news.ycombinator.com/x` →
/// `news.ycombinator.com`). Falls back to the raw URL when it can't be parsed.
pub fn host(url_str: &str) -> (r: String)
    ensures
        r@ == host_text(url_str@),
{
    match url_host(url_str) {
        Some(h) => h,
        None => url_str.to_owned(),
    }
}

/// Where a bookmark's favicon is fetched from: nothing when it has none (or
/// only whitespace); the trimmed text itself when it is an absolute
/// `http://`/`https://` URL; otherwise the text resolved against `base`.
pub open spec fn favicon_location(base: Seq<char>, b: BookmarkView) -> Option<Seq<char>> {
    match b.favicon_url {
        None => None,
        Some(f) => {
            let raw = trim_seq(f@);
            if raw.len() == 0 {
                None
            } else if has_prefix(raw, "http://"@) || has_prefix(raw, "https://"@) {
                Some(raw)
            } else {
                url_joined(base, raw)
            }
        },
    }
}

/// Resolve a bookmark's `favicon_url` to an absolute URL suitable for fetching.
/// Relative paths are resolved against `base_url`. Returns `None` when the
/// bookmark has no favicon.
pub fn resolve_favicon(base_url: &str, b: &BookmarkView) -> (r: Option<String>)
    ensures
        opt_view(r) == favicon_location(base_url@, *b),
{
    let raw = match &b.favicon_url {
        Some(f) => trim(f.as_str()),
        None => {
            return None;
        },
    };
    if raw.unicode_len() == 0 {
        return None;
    }
    if starts_with(raw, "http://") || starts_with(raw, "https://") {
        return Some(raw.to_owned());
    }
    url_join(base_url, raw)
}

/// The position of the first `c` in `s`, or `s.len()` when there is none.
pub open spec fn index_of_char(s: Seq<char>, c: char) -> int
    decreases s.len(),
{
    if s.len() == 0 {
        0
    } else if s[0] == c {
        0
    } else {
        1 + index_of_char(s.drop_first(), c)
    }
}

proof fn lemma_index_of_char(s: Seq<char>, c: char, k: int)
    requires
        0 <= k <= s.len(),
        forall|j: int| 0 <= j < k ==> #[trigger] s[j] != c,
        k == s.len() || s[k] == c,
    ensures
        index_of_char(s, c) == k,
    decreases k,
{
    if k > 0 {
        let t = s.drop_first();
        assert(s[0] != c);
        assert forall|j: int| 0 <= j < k - 1 implies #[trigger] t[j] != c by {
            assert(t[j] == s[j + 1]);
        }
        if k < s.len() {
            assert(t[k - 1] == s[k]);
        }
        lemma_index_of_char(t, c, k - 1);
    }
}

/// The short date label for an ISO-8601 timestamp: the part before the first
/// `T` when that part is ten bytes long with a `-` as its fifth byte (as in
/// `2026-07-14`); otherwise the input unchanged.
pub open spec fn short_date_text(iso: Seq<char>) -> Seq<char> {
    let k = index_of_char(iso, 'T');
    if k < iso.len() {
        let date = iso.subrange(0, k);
        let bytes = encode_utf8(date);
        if bytes.len() == 10 && bytes[4] == 45u8 {
            date
        } else {
            iso
        }
    } else {
        iso
    }
}

/// Law: a text without any `T` is shown unchanged as a date.
pub proof fn law_short_date_no_t(iso: Seq<char>)
    requires
        forall|i: int| 0 <= i < iso.len() ==> #[trigger] iso[i] != 'T',
    ensures
        short_date_text(iso) == iso,
{
    lemma_index_of_char(iso, 'T', iso.len() as int);
}

/// Format an ISO-8601 timestamp (as returned by Linkding) into a short,
/// human date like `2026-07-14`. Returns the input unchanged if it doesn't
/// look like ISO-8601.
pub fn short_date(iso: &str) -> (r: String)
    ensures
        r@ == short_date_text(iso@),
{
    let n = iso.unicode_len();
    let mut k: usize = 0;
    while k < n && iso.get_char(k) != 'T'
        invariant
            n == iso@.len(),
            k <= n,
            forall|j: int| 0 <= j < k ==> #[trigger] iso@[j] != 'T',
        decreases n - k,
    {
        k = k + 1;
    }
    proof {
        lemma_index_of_char(iso@, 'T', k as int);
    }
    if k == n {
        return iso.to_owned();
    }
    let date = iso.substring_char(0, k);
    if date.len() == 10 && date.as_bytes()[4] == 45u8 {
        date.to_owned()
    } else {
        iso.to_owned()
    }
}

/// Label and icon of the read-status action: an unread bookmark offers
/// "Mark as read", a read one "Mark as unread".
pub open spec fn read_action_text(unread: bool) -> (Seq<char>, Seq<char>) {
    if unread {
        ("Mark as read"@, "object-select-symbolic"@)
    } else {
        ("Mark as unread"@, "mail-mark-important-symbolic"@)
    }
}

/// Label + icon for the read-status toggle in the row action menu. The action
/// reflects what the click *does*, not the current state.
pub fn read_action(unread: bool) -> (r: (&'static str, &'static str))
    ensures
        (r.0@, r.1@) == read_action_text(unread),
{
    if unread {
        ("Mark as read", "object-select-symbolic")
    } else {
        ("Mark as unread", "mail-mark-important-symbolic")
    }
}

/// Label and icon of the archive action: "Unarchive" in the archived list,
/// "Archive" elsewhere.
pub open spec fn archive_action_text(is_archived_scope: bool) -> (Seq<char>, Seq<char>) {
    if is_archived_scope {
        ("Unarchive"@, "view-restore-symbolic"@)
    } else {
        ("Archive"@, "folder-download-symbolic"@)
    }
}

/// Label + icon for the archive toggle in the row action menu.
pub fn archive_action(is_archived_scope: bool) -> (r: (&'static str, &'static str))
    ensures
        (r.0@, r.1@) == archive_action_text(is_archived_scope),
{
    if is_archived_scope {
        ("Unarchive", "view-restore-symbolic")
    } else {
        ("Archive", "folder-download-symbolic")
    }
}

} // verus!
