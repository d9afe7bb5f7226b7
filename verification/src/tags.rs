//! The tags entry of the add/edit sheet: reading a free-form tag list,
//! appending a picked tag, and cleaning single-field input.

use vstd::prelude::*;
use vstd::string::{StrSliceExecFns, StringExecFns};
use crate::api::views;
use crate::text::{
    is_blank, is_ws, join, strip_start, strip_start_seq, trim, trim_end_seq, trim_seq, trim_start_seq,
};

verus! {

/// The characters that separate tags in the tags entry.
pub open spec fn is_tag_sep(c: char) -> bool {
    c == ' ' || c == ',' || c == '\t' || c == '\n'
}

/// The pieces of `s` between separators, empty pieces included
/// (what `str::split` with the separator set yields).
pub open spec fn split_pieces(s: Seq<char>) -> Seq<Seq<char>>
    decreases s.len(),
{
    if s.len() == 0 {
        seq![Seq::empty()]
    } else {
        let p = split_pieces(s.drop_last());
        if is_tag_sep(s.last()) {
            p.push(Seq::empty())
        } else {
            p.update(p.len() - 1, p.last().push(s.last()))
        }
    }
}

/// A piece cleaned into a tag: trimmed, then stripped of leading `#`s.
pub open spec fn clean_tag(p: Seq<char>) -> Seq<char> {
    strip_start_seq(trim_seq(p), '#')
}

/// The tags read from pieces, in order: each piece cleaned, empty results
/// dropped, and a tag kept only the first time it occurs.
pub open spec fn collect_tags(ps: Seq<Seq<char>>) -> Seq<Seq<char>>
    decreases ps.len(),
{
    if ps.len() == 0 {
        Seq::empty()
    } else {
        let d = collect_tags(ps.drop_last());
        let t = clean_tag(ps.last());
        if t.len() > 0 && !d.contains(t) {
            d.push(t)
        } else {
            d
        }
    }
}

/// The tags of a tags entry.
pub open spec fn tags_of(s: Seq<char>) -> Seq<Seq<char>> {
    collect_tags(split_pieces(s))
}

proof fn lemma_split_pieces_nonempty(s: Seq<char>)
    ensures
        split_pieces(s).len() >= 1,
    decreases s.len(),
{
    if s.len() > 0 {
        lemma_split_pieces_nonempty(s.drop_last());
    }
}

/// Law: the tags read from an entry are non-empty and distinct.
pub proof fn law_tags_distinct(ps: Seq<Seq<char>>)
    ensures
        collect_tags(ps).no_duplicates(),
        forall|i: int| 0 <= i < collect_tags(ps).len() ==> #[trigger] collect_tags(ps)[i].len() > 0,
    decreases ps.len(),
{
    if ps.len() > 0 {
        law_tags_distinct(ps.drop_last());
    }
}

/// Whether the strings of `v` include `t`.
fn contains_string(v: &Vec<String>, t: &String) -> (r: bool)
    ensures
        r == views(v@).contains(t@),
{
    let mut j: usize = 0;
    while j < v.len()
        invariant
            j <= v.len(),
            forall|k: int| 0 <= k < j ==> v@[k]@ != t@,
        decreases v.len() - j,
    {
        if v[j] == *t {
            assert(views(v@)[j as int] == t@);
            return true;
        }
        j = j + 1;
    }
    proof {
        if views(v@).contains(t@) {
            let k = choose|k: int| 0 <= k < views(v@).len() && views(v@)[k] == t@;
            assert(v@[k]@ == t@);
        }
    }
    false
}

/// The tag a piece stands for (trimmed, leading `#`s removed), possibly empty.
fn clean_piece(piece: &str) -> (r: &str)
    ensures
        r@ == clean_tag(piece@),
{
    strip_start(trim(piece), '#')
}

/// Adds the tag of `piece` to `out` unless it is empty or already there.
fn add_piece(out: &mut Vec<String>, piece: &str)
    ensures
        views(final(out)@) == ({
            let t = clean_tag(piece@);
            if t.len() > 0 && !views(old(out)@).contains(t) {
                views(old(out)@).push(t)
            } else {
                views(old(out)@)
            }
        }),
{
    let tag = clean_piece(piece).to_owned();
    if tag.as_str().unicode_len() != 0 && !contains_string(out, &tag) {
        out.push(tag);
        assert(views(final(out)@) =~= views(old(out)@).push(tag@));
    }
}

/// Split a tags entry on whitespace/commas into a de-duplicated list.
pub fn parse_tags(input: &str) -> (out: Vec<String>)
    ensures
        views(out@) == tags_of(input@),
        views(out@).no_duplicates(),
        forall|i: int| 0 <= i < out@.len() ==> #[trigger] out@[i]@.len() > 0,
        (forall|i: int|
            0 <= i < input@.len() ==> #[trigger] input@[i] != ' ' && input@[i] != ','
                && input@[i] != '\t' && input@[i] != '\n') ==> views(out@) == (if clean_tag(
            input@,
        ).len() > 0 {
            seq![clean_tag(input@)]
        } else {
            Seq::empty()
        }),
{
    let n = input.unicode_len();
    let mut out: Vec<String> = Vec::new();
    let mut start: usize = 0;
    let mut i: usize = 0;
    assert(input@.subrange(0, 0) =~= Seq::<char>::empty());
    assert(views(out@) =~= Seq::<Seq<char>>::empty());
    while i < n
        invariant
            n == input@.len(),
            start <= i <= n,
            split_pieces(input@.subrange(0, i as int)).len() >= 1,
            split_pieces(input@.subrange(0, i as int)).last() == input@.subrange(
                start as int,
                i as int,
            ),
            views(out@) == collect_tags(split_pieces(input@.subrange(0, i as int)).drop_last()),
        decreases n - i,
    {
        let c = input.get_char(i);
        let ghost pre = input@.subrange(0, i as int);
        let ghost next = input@.subrange(0, i + 1);
        let ghost p = split_pieces(pre);
        assert(next.drop_last() =~= pre);
        assert(next.last() == c);
        if c == ' ' || c == ',' || c == '\t' || c == '\n' {
            let piece = input.substring_char(start, i);
            add_piece(&mut out, piece);
            start = i + 1;
            proof {
                let q = p.push(Seq::empty());
                assert(split_pieces(next) == q);
                assert(q.drop_last() =~= p);
                assert(p.drop_last() =~= p.subrange(0, p.len() - 1));
                assert(input@.subrange(start as int, i + 1) =~= Seq::<char>::empty());
            }
        } else {
            proof {
                let q = p.update(p.len() - 1, p.last().push(c));
                assert(split_pieces(next) == q);
                assert(q.drop_last() =~= p.drop_last());
                assert(q.last() =~= input@.subrange(start as int, i + 1));
            }
        }
        i = i + 1;
        proof {
            lemma_split_pieces_nonempty(input@.subrange(0, i as int));
        }
    }
    let piece = input.substring_char(start, n);
    add_piece(&mut out, piece);
    proof {
        let p = split_pieces(input@);
        assert(input@.subrange(0, n as int) =~= input@);
        assert(p.drop_last().len() == p.len() - 1);
        assert(collect_tags(p) == {
            let d = collect_tags(p.drop_last());
            let t = clean_tag(p.last());
            if t.len() > 0 && !d.contains(t) {
                d.push(t)
            } else {
                d
            }
        });
        law_tags_distinct(p);
        if forall|i: int|
            0 <= i < input@.len() ==> #[trigger] input@[i] != ' ' && input@[i] != ','
                && input@[i] != '\t' && input@[i] != '\n' {
            law_piece_is_one_tag(input@);
        }
        assert forall|i: int| 0 <= i < out@.len() implies #[trigger] out@[i]@.len() > 0 by {
            assert(views(out@)[i] == out@[i]@);
        }
    }
    out
}


/// The trimmed text of a field, or `None` when it is blank.
pub open spec fn non_empty_text(s: Seq<char>) -> Option<Seq<char>> {
    if trim_seq(s).len() == 0 {
        None
    } else {
        Some(trim_seq(s))
    }
}

/// The trimmed text, or `None` when nothing is left.
pub fn non_empty(s: &str) -> (r: Option<String>)
    ensures
        crate::api::opt_view(r) == non_empty_text(s@),
{
    let t = trim(s);
    if t.unicode_len() == 0 {
        None
    } else {
        Some(t.to_owned())
    }
}

/// The name a new tag gets from the create-tag entry: the text trimmed and
/// stripped of leading `#`s, or `None` when nothing is left.
pub open spec fn new_tag_name_text(s: Seq<char>) -> Option<Seq<char>> {
    if clean_tag(s).len() == 0 {
        None
    } else {
        Some(clean_tag(s))
    }
}

/// Reads the create-tag entry: the tag name to create, if any.
pub fn new_tag_name(input: &str) -> (r: Option<String>)
    ensures
        crate::api::opt_view(r) == new_tag_name_text(input@),
{
    let t = clean_piece(input);
    if t.unicode_len() == 0 {
        None
    } else {
        Some(t.to_owned())
    }
}

/// The strings joined with single spaces (`[String]::join(" ")`).
pub fn join_with_spaces(v: &Vec<String>) -> (r: String)
    ensures
        r@ == join(views(v@), seq![' ']),
{
    let mut r = String::new();
    let mut i: usize = 0;
    while i < v.len()
        invariant
            i <= v.len(),
            r@ == join(views(v@.subrange(0, i as int)), seq![' ']),
        decreases v.len() - i,
    {
        let ghost pre = views(v@.subrange(0, i as int));
        let ghost next = views(v@.subrange(0, i + 1));
        assert(next.drop_last() =~= pre);
        assert(next.last() == v@[i as int]@);
        if i > 0 {
            crate::text::push_char(&mut r, ' ');
        }
        r.append(v[i].as_str());
        i = i + 1;
        proof {
            if i == 1 {
                assert(r@ =~= next[0]);
            } else {
                assert(r@ =~= join(pre, seq![' ']) + seq![' '] + next.last());
            }
        }
    }
    assert(v@.subrange(0, v.len() as int) =~= v@);
    r
}

/// The new text of the tags entry after picking `tag`: unchanged (`None`)
/// when the entry already holds the tag; otherwise the tag appended, after a
/// space unless the entry is blank.
pub open spec fn appended_tag_text(current: Seq<char>, tag: Seq<char>) -> Option<Seq<char>> {
    if tags_of(current).contains(tag) {
        None
    } else if is_blank(current) {
        Some(current + tag)
    } else {
        Some(current + seq![' '] + tag)
    }
}

/// Append a tag to the entry text if not already present; `None` means the
/// entry stays as it is.
pub fn append_tag(current: &str, tag: &str) -> (r: Option<String>)
    ensures
        crate::api::opt_view(r) == appended_tag_text(current@, tag@),
{
    let existing = parse_tags(current);
    let owned = tag.to_owned();
    if contains_string(&existing, &owned) {
        return None;
    }
    let mut text = current.to_owned();
    if trim(current).unicode_len() != 0 {
        crate::text::push_char(&mut text, ' ');
    }
    text.append(tag);
    Some(text)
}


/// A tag that reads back as itself: non-empty, no separator inside, no
/// whitespace at either end, and not starting with `#`.
pub open spec fn is_clean_tag(t: Seq<char>) -> bool {
    &&& t.len() > 0
    &&& !is_ws(t[0])
    &&& !is_ws(t.last())
    &&& t[0] != '#'
    &&& forall|i: int|
        0 <= i < t.len() ==> #[trigger] t[i] != ' ' && t[i] != ',' && t[i] != '\t' && t[i] != '\n'
}

proof fn lemma_clean_tag_fixed(t: Seq<char>)
    requires
        is_clean_tag(t),
    ensures
        clean_tag(t) == t,
{
    assert(trim_seq(t) == t);
}

/// Appending text without separators extends the last piece.
proof fn lemma_split_append(a: Seq<char>, b: Seq<char>)
    requires
        forall|i: int| 0 <= i < b.len() ==> !is_tag_sep(#[trigger] b[i]),
    ensures
        split_pieces(a + b) == split_pieces(a).update(
            split_pieces(a).len() - 1,
            split_pieces(a).last() + b,
        ),
    decreases b.len(),
{
    lemma_split_pieces_nonempty(a);
    if b.len() == 0 {
        assert(a + b =~= a);
        assert(split_pieces(a).last() + b =~= split_pieces(a).last());
        assert(split_pieces(a).update(split_pieces(a).len() - 1, split_pieces(a).last())
            =~= split_pieces(a));
    } else {
        let b0 = b.drop_last();
        assert forall|i: int| 0 <= i < b0.len() implies !is_tag_sep(#[trigger] b0[i]) by {
            assert(b0[i] == b[i]);
        }
        lemma_split_append(a, b0);
        let ab = a + b;
        assert(ab.drop_last() =~= a + b0);
        assert(ab.last() == b[b.len() - 1]);
        let p = split_pieces(a);
        let q = split_pieces(a + b0);
        assert(q.len() == p.len());
        assert(split_pieces(ab) =~= p.update(p.len() - 1, p.last() + b)) by {
            assert(q.last() == p.last() + b0);
            assert(q.last().push(b.last()) =~= p.last() + b);
        }
    }
}

/// The pieces of tags joined by spaces are the tags themselves.
proof fn lemma_split_join(ts: Seq<Seq<char>>)
    requires
        ts.len() >= 1,
        forall|k: int| 0 <= k < ts.len() ==> is_clean_tag(#[trigger] ts[k]),
    ensures
        split_pieces(join(ts, seq![' '])) == ts,
    decreases ts.len(),
{
    let last = ts.last();
    assert(is_clean_tag(ts[ts.len() - 1]));
    if ts.len() == 1 {
        lemma_split_append(Seq::empty(), last);
        assert(Seq::<char>::empty() + last =~= last);
        assert(split_pieces(Seq::<char>::empty()) == seq![Seq::<char>::empty()]);
        assert(Seq::<char>::empty() + last =~= last);
        assert(seq![Seq::<char>::empty()].update(0, last) =~= ts);
    } else {
        let d = ts.drop_last();
        assert forall|k: int| 0 <= k < d.len() implies is_clean_tag(#[trigger] d[k]) by {
            assert(d[k] == ts[k]);
        }
        lemma_split_join(d);
        let a = join(d, seq![' ']) + seq![' '];
        assert(a.drop_last() =~= join(d, seq![' ']));
        assert(a.last() == ' ');
        assert(split_pieces(a) == d.push(Seq::empty()));
        lemma_split_append(a, last);
        assert(join(ts, seq![' ']) == a + last);
        assert(Seq::<char>::empty() + last =~= last);
        assert(d.push(Seq::empty()).update(d.len() as int, last) =~= ts);
    }
}

proof fn lemma_collect_clean(ts: Seq<Seq<char>>)
    requires
        ts.no_duplicates(),
        forall|k: int| 0 <= k < ts.len() ==> is_clean_tag(#[trigger] ts[k]),
    ensures
        collect_tags(ts) == ts,
    decreases ts.len(),
{
    if ts.len() > 0 {
        let d = ts.drop_last();
        assert forall|k: int| 0 <= k < d.len() implies is_clean_tag(#[trigger] d[k]) by {
            assert(d[k] == ts[k]);
        }
        assert(d.no_duplicates()) by {
            assert forall|i: int, j: int| 0 <= i < d.len() && 0 <= j < d.len() && i != j implies d[i]
                != d[j] by {
                assert(d[i] == ts[i] && d[j] == ts[j]);
            }
        }
        lemma_collect_clean(d);
        assert(is_clean_tag(ts[ts.len() - 1]));
        lemma_clean_tag_fixed(ts.last());
        assert(!d.contains(ts.last())) by {
            if d.contains(ts.last()) {
                let k = choose|k: int| 0 <= k < d.len() && d[k] == ts.last();
                assert(ts[k] == ts[ts.len() - 1]);
            }
        }
        assert(d.push(ts.last()) =~= ts);
    }
}

/// Law: clean, distinct tags written into the tags entry separated by spaces
/// (as the edit sheet prefills it) are read back as the same tags.
pub proof fn law_tags_roundtrip(ts: Seq<Seq<char>>)
    requires
        ts.no_duplicates(),
        forall|k: int| 0 <= k < ts.len() ==> is_clean_tag(#[trigger] ts[k]),
    ensures
        tags_of(join(ts, seq![' '])) == ts,
{
    if ts.len() == 0 {
        let e = Seq::<char>::empty();
        assert(join(ts, seq![' ']) == e);
        assert(split_pieces(e) == seq![e]);
        assert(seq![e].drop_last() =~= Seq::<Seq<char>>::empty());
        assert(trim_seq(e) == e);
        assert(clean_tag(e) == e);
        assert(seq![e].last() == e);
        assert(collect_tags(Seq::<Seq<char>>::empty()) == Seq::<Seq<char>>::empty());
        assert(collect_tags(seq![e].drop_last()) == Seq::<Seq<char>>::empty());
        assert(collect_tags(seq![e]) == Seq::<Seq<char>>::empty());
    } else {
        lemma_split_join(ts);
        lemma_collect_clean(ts);
    }
}

/// The pieces of a whitespace-only string are whitespace-only.
proof fn lemma_pieces_all_ws(s: Seq<char>)
    requires
        forall|i: int| 0 <= i < s.len() ==> is_ws(#[trigger] s[i]),
    ensures
        forall|k: int, j: int|
            0 <= k < split_pieces(s).len() && 0 <= j < split_pieces(s)[k].len() ==> is_ws(
                #[trigger] split_pieces(s)[k][j],
            ),
    decreases s.len(),
{
    if s.len() > 0 {
        let t = s.drop_last();
        assert forall|i: int| 0 <= i < t.len() implies is_ws(#[trigger] t[i]) by {
            assert(t[i] == s[i]);
        }
        lemma_pieces_all_ws(t);
        lemma_split_pieces_nonempty(t);
        assert(is_ws(s[s.len() - 1]));
        let p = split_pieces(t);
        let q = split_pieces(s);
        assert forall|k: int, j: int| 0 <= k < q.len() && 0 <= j < q[k].len() implies is_ws(
            #[trigger] q[k][j],
        ) by {
            if !is_tag_sep(s.last()) && k == p.len() - 1 {
                if j < p[k].len() {
                    assert(q[k][j] == p[k][j]);
                }
            } else if k < p.len() {
                assert(q[k] == p[k]);
            }
        }
    }
}

proof fn lemma_clean_ws_empty(p: Seq<char>)
    requires
        forall|i: int| 0 <= i < p.len() ==> is_ws(#[trigger] p[i]),
    ensures
        clean_tag(p).len() == 0,
{
    crate::text::lemma_trim_start_skip(p, p.len() as int);
    assert(p.subrange(p.len() as int, p.len() as int) =~= Seq::<char>::empty());
}

proof fn lemma_collect_blank(ps: Seq<Seq<char>>)
    requires
        forall|k: int, j: int|
            0 <= k < ps.len() && 0 <= j < ps[k].len() ==> is_ws(#[trigger] ps[k][j]),
    ensures
        collect_tags(ps).len() == 0,
    decreases ps.len(),
{
    if ps.len() > 0 {
        let d = ps.drop_last();
        assert forall|k: int, j: int| 0 <= k < d.len() && 0 <= j < d[k].len() implies is_ws(
            #[trigger] d[k][j],
        ) by {
            assert(d[k] == ps[k]);
        }
        lemma_collect_blank(d);
        let l = ps.last();
        assert forall|j: int| 0 <= j < l.len() implies is_ws(#[trigger] l[j]) by {
            assert(l[j] == ps[ps.len() - 1][j]);
        }
        lemma_clean_ws_empty(l);
    }
}

/// Law: picking a clean tag that the entry does not hold yet appends it: the
/// entry's new text reads back as the old tags followed by that tag.
pub proof fn law_append_tag_adds(current: Seq<char>, tag: Seq<char>)
    requires
        is_clean_tag(tag),
        !tags_of(current).contains(tag),
    ensures
        appended_tag_text(current, tag) matches Some(t) && tags_of(t) == tags_of(current).push(
            tag,
        ),
{
    lemma_clean_tag_fixed(tag);
    lemma_split_pieces_nonempty(current);
    let p = split_pieces(current);
    if is_blank(current) {
        crate::text::lemma_blank_all_ws(current);
        lemma_pieces_all_ws(current);
        lemma_collect_blank(p);
        lemma_split_append(current, tag);
        let q = split_pieces(current + tag);
        let l = p.last();
        assert(q.drop_last() =~= p.drop_last());
        assert forall|k: int, j: int|
            0 <= k < p.drop_last().len() && 0 <= j < p.drop_last()[k].len() implies is_ws(
            #[trigger] p.drop_last()[k][j],
        ) by {
            assert(p.drop_last()[k] == p[k]);
        }
        lemma_collect_blank(p.drop_last());
        assert forall|j: int| 0 <= j < l.len() implies is_ws(#[trigger] (l + tag)[j]) by {
            assert((l + tag)[j] == p[p.len() - 1][j]);
        }
        crate::text::lemma_trim_start_skip(l + tag, l.len() as int);
        assert((l + tag).subrange(l.len() as int, (l + tag).len() as int) =~= tag);
        assert(trim_start_seq(tag) == tag);
        assert(trim_end_seq(tag) == tag);
        assert(q.last() == l + tag);
        assert(clean_tag(q.last()) == tag);
        assert(collect_tags(q) =~= seq![tag]);
        assert(tags_of(current).push(tag) =~= seq![tag]);
    } else {
        let a = current + seq![' '];
        assert(a.drop_last() =~= current);
        assert(a.last() == ' ');
        assert(split_pieces(a) == p.push(Seq::empty()));
        lemma_split_append(a, tag);
        assert(Seq::<char>::empty() + tag =~= tag);
        let q = split_pieces(a + tag);
        assert(q =~= p.push(tag));
        assert(q.drop_last() =~= p);
    }
}


/// Law: text with none of the four separators (space, comma, tab, newline)
/// is read as a single piece: it gives its cleaned self as the only tag, or
/// nothing when cleaning leaves nothing. No other character splits a tag.
pub proof fn law_piece_is_one_tag(s: Seq<char>)
    requires
        forall|i: int|
            0 <= i < s.len() ==> #[trigger] s[i] != ' ' && s[i] != ',' && s[i] != '\t' && s[i]
                != '\n',
    ensures
        tags_of(s) == (if clean_tag(s).len() > 0 {
            seq![clean_tag(s)]
        } else {
            Seq::empty()
        }),
{
    let e = Seq::<char>::empty();
    assert forall|i: int| 0 <= i < s.len() implies !is_tag_sep(#[trigger] s[i]) by {
        assert(s[i] != ' ' && s[i] != ',' && s[i] != '\t' && s[i] != '\n');
    }
    lemma_split_append(e, s);
    assert(e + s =~= s);
    assert(split_pieces(e) == seq![e]);
    assert(seq![e].update(0, e + s) =~= seq![s]);
    let p = seq![s];
    assert(p.drop_last() =~= Seq::<Seq<char>>::empty());
    assert(collect_tags(Seq::<Seq<char>>::empty()) == Seq::<Seq<char>>::empty());
    assert(collect_tags(p.drop_last()) == Seq::<Seq<char>>::empty());
    assert(p.last() == s);
    if clean_tag(s).len() > 0 {
        assert(Seq::<Seq<char>>::empty().push(clean_tag(s)) =~= seq![clean_tag(s)]);
    }
}

/// Law: each of the four separators (space, comma, tab, newline) between two
/// different clean tags reads back as exactly those two tags, in order.
pub proof fn law_separator_splits(t1: Seq<char>, t2: Seq<char>, c: char)
    requires
        c == ' ' || c == ',' || c == '\t' || c == '\n',
        is_clean_tag(t1),
        is_clean_tag(t2),
        t1 != t2,
    ensures
        tags_of(t1 + seq![c] + t2) == seq![t1, t2],
{
    let e = Seq::<char>::empty();
    assert forall|i: int| 0 <= i < t1.len() implies !is_tag_sep(#[trigger] t1[i]) by {
        assert(t1[i] != ' ' && t1[i] != ',' && t1[i] != '\t' && t1[i] != '\n');
    }
    assert forall|i: int| 0 <= i < t2.len() implies !is_tag_sep(#[trigger] t2[i]) by {
        assert(t2[i] != ' ' && t2[i] != ',' && t2[i] != '\t' && t2[i] != '\n');
    }
    lemma_split_append(e, t1);
    assert(e + t1 =~= t1);
    assert(split_pieces(e) == seq![e]);
    assert(split_pieces(t1) == seq![t1]) by {
        assert(seq![e].update(0, e + t1) =~= seq![t1]);
    }
    let a = t1 + seq![c];
    assert(a.drop_last() =~= t1);
    assert(a.last() == c);
    assert(is_tag_sep(c));
    assert(split_pieces(a) == seq![t1].push(e));
    lemma_split_append(a, t2);
    let ps = seq![t1, t2];
    assert(split_pieces(a + t2) =~= ps) by {
        assert(seq![t1].push(e).update(1, e + t2) =~= ps);
        assert(e + t2 =~= t2);
    }
    assert(a + t2 =~= t1 + seq![c] + t2);
    assert(ps.no_duplicates());
    assert forall|k: int| 0 <= k < ps.len() implies is_clean_tag(#[trigger] ps[k]) by {}
    lemma_collect_clean(ps);
}


/// Law: leading `#`s and surrounding whitespace are not part of a tag, and a
/// tag written twice is read once.
pub proof fn law_tag_cleaning(t: Seq<char>)
    requires
        is_clean_tag(t),
    ensures
        tags_of(seq!['#'] + t) == seq![t],
        tags_of(seq!['#', '#'] + t) == seq![t],
        tags_of(seq!['\r'] + t + seq!['\u{a0}']) == seq![t],
        tags_of(t + seq![' '] + t) == seq![t],
{
    let h = seq!['#'] + t;
    let hh = seq!['#', '#'] + t;
    let w = seq!['\r'] + t + seq!['\u{a0}'];
    assert forall|i: int| 0 <= i < h.len() implies #[trigger] h[i] != ' ' && h[i] != ',' && h[i]
        != '\t' && h[i] != '\n' by {
        if i > 0 {
            assert(h[i] == t[i - 1]);
        }
    }
    assert forall|i: int| 0 <= i < hh.len() implies #[trigger] hh[i] != ' ' && hh[i] != ','
        && hh[i] != '\t' && hh[i] != '\n' by {
        if i > 1 {
            assert(hh[i] == t[i - 2]);
        }
    }
    assert forall|i: int| 0 <= i < w.len() implies #[trigger] w[i] != ' ' && w[i] != ',' && w[i]
        != '\t' && w[i] != '\n' by {
        if 0 < i < w.len() - 1 {
            assert(w[i] == t[i - 1]);
        }
    }
    law_piece_is_one_tag(h);
    law_piece_is_one_tag(hh);
    law_piece_is_one_tag(w);
    assert(trim_start_seq(t) == t);
    assert(trim_end_seq(t) == t);
    // `#t`: nothing to trim, then the one `#` goes.
    assert(trim_start_seq(h) == h);
    assert(h.last() == t.last());
    assert(trim_end_seq(h) == h);
    assert(h.drop_first() =~= t);
    assert(strip_start_seq(t, '#') == t);
    assert(clean_tag(h) == t);
    assert(hh.drop_first() =~= h);
    assert(trim_start_seq(hh) == hh);
    assert(hh.last() == t.last());
    assert(trim_end_seq(hh) == hh);
    assert(clean_tag(hh) == t);
    // `\r t \u{a0}`: the whitespace at both ends goes.
    assert(w.drop_first() =~= t + seq!['\u{a0}']);
    let w1 = t + seq!['\u{a0}'];
    assert(w1[0] == t[0]);
    assert(w[0] == '\r');
    assert(is_ws(w[0]));
    assert(trim_start_seq(w1) == w1);
    assert(trim_start_seq(w) == trim_start_seq(w.drop_first()));
    assert(trim_start_seq(w) == w1);
    assert(w1.drop_last() =~= t);
    assert(trim_end_seq(w1) == t);
    assert(strip_start_seq(t, '#') == t);
    assert(clean_tag(w) == t);
    // `t t`: the second copy is dropped.
    let ts = seq![t];
    assert(ts.no_duplicates());
    lemma_split_join(ts);
    assert(join(ts, seq![' ']) == t);
    let a = t + seq![' '];
    assert(a.drop_last() =~= t);
    assert(a.last() == ' ');
    assert(split_pieces(a) == seq![t].push(Seq::empty()));
    assert forall|i: int| 0 <= i < t.len() implies !is_tag_sep(#[trigger] t[i]) by {
        assert(t[i] != ' ' && t[i] != ',' && t[i] != '\t' && t[i] != '\n');
    }
    lemma_split_append(a, t);
    let ps = seq![t, t];
    assert(split_pieces(a + t) =~= ps) by {
        assert(Seq::<char>::empty() + t =~= t);
        assert(seq![t].push(Seq::<char>::empty()).update(1, Seq::<char>::empty() + t) =~= ps);
    }
    lemma_clean_tag_fixed(t);
    lemma_collect_clean(ts);
    assert(ps.drop_last() =~= ts);
    assert(collect_tags(ts) == ts);
    assert(ts.contains(t)) by {
        assert(ts[0] == t);
    }
    assert(ps.last() == t);
}

} // verus!
