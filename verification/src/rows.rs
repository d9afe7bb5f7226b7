//! What a bookmark row shows besides its title and snippets: the host and
//! date line, the badges, and the id the row carries.

use vstd::prelude::*;
use vstd::string::StringExecFns;
use crate::api::{views, BookmarkView};
use crate::models::{host, host_text, short_date, short_date_text};
use crate::numerals::{i32_to_string, parse_i32, parse_i32_spec, signed_decimal};

verus! {

/// The number of tag badges a row shows at most.
pub const MAX_TAG_BADGES: usize = 4;

/// The name a row carries so that activation can recover the bookmark id.
pub fn row_name(id: i32) -> (r: String)
    ensures
        r@ == signed_decimal(id as int),
{
    i32_to_string(id)
}

/// The bookmark id recovered from a row's name.
pub fn row_id(name: &str) -> (r: Option<i32>)
    ensures
        r == parse_i32_spec(name@),
{
    parse_i32(name)
}

/// Law: a row built for a bookmark gives back that bookmark's id.
pub proof fn law_row_id_roundtrip(id: i32)
    ensures
        parse_i32_spec(signed_decimal(id as int)) == Some(id),
{
    crate::numerals::law_decimal_roundtrip(id);
}

/// A tag's label: the tag after a `#`.
pub fn hash_label(tag: &str) -> (r: String)
    ensures
        r@ == seq!['#'] + tag@,
{
    let mut s = "#".to_owned();
    proof {
        reveal_strlit("#");
    }
    s.append(tag);
    s
}

/// The meta line of a row: the host, a middle dot, and the short date.
pub open spec fn meta_text(b: BookmarkView) -> Seq<char> {
    host_text(b.url@) + " \u{b7} "@ + short_date_text(b.date_added@)
}

/// The `host · date` line of a row.
pub fn meta_line(b: &BookmarkView) -> (r: String)
    ensures
        r@ == meta_text(*b),
{
    let mut s = host(b.url.as_str());
    s.append(" \u{b7} ");
    let d = short_date(b.date_added.as_str());
    s.append(d.as_str());
    s
}

/// A status or tag pill: its text and the style class it adds, if any.
#[derive(Clone, Debug)]
pub struct Badge {
    pub text: String,
    pub kind: Option<&'static str>,
}

/// A badge by its views.
pub open spec fn badge_view(b: Badge) -> (Seq<char>, Option<Seq<char>>) {
    (
        b.text@,
        match b.kind {
            Some(k) => Some(k@),
            None => None,
        },
    )
}

/// The status badges of a bookmark: unread, shared, archived, in that order.
pub open spec fn status_badges(b: BookmarkView) -> Seq<(Seq<char>, Option<Seq<char>>)> {
    let s0 = Seq::<(Seq<char>, Option<Seq<char>>)>::empty();
    let s1 = if b.unread {
        s0.push(("unread"@, Some("unread"@)))
    } else {
        s0
    };
    let s2 = if b.shared {
        s1.push(("shared"@, Some("shared"@)))
    } else {
        s1
    };
    if b.is_archived {
        s2.push(("archived"@, None))
    } else {
        s2
    }
}

/// The badges of a row: the status badges, then a `#tag` badge for each of
/// the first four tags.
pub open spec fn badges_text(b: BookmarkView) -> Seq<(Seq<char>, Option<Seq<char>>)> {
    let n = if views(b.tag_names@).len() < 4 {
        views(b.tag_names@).len()
    } else {
        4
    };
    status_badges(b) + Seq::new(
        n as nat,
        |i: int| (seq!['#'] + views(b.tag_names@)[i], None::<Seq<char>>),
    )
}

/// The badges shown on a bookmark's row.
pub fn badges(b: &BookmarkView) -> (r: Vec<Badge>)
    ensures
        r@.map_values(|x: Badge| badge_view(x)) == badges_text(*b),
{
    let mut out: Vec<Badge> = Vec::new();
    if b.unread {
        out.push(Badge { text: "unread".to_owned(), kind: Some("unread") });
    }
    if b.shared {
        out.push(Badge { text: "shared".to_owned(), kind: Some("shared") });
    }
    if b.is_archived {
        out.push(Badge { text: "archived".to_owned(), kind: None });
    }
    let ghost st = status_badges(*b);
    assert(out@.map_values(|x: Badge| badge_view(x)) =~= st);
    let n = if b.tag_names.len() < MAX_TAG_BADGES {
        b.tag_names.len()
    } else {
        MAX_TAG_BADGES
    };
    let ghost tv = views(b.tag_names@);
    let mut i: usize = 0;
    while i < n
        invariant
            n <= b.tag_names@.len(),
            n == (if tv.len() < 4 { tv.len() } else { 4 }),
            tv == views(b.tag_names@),
            i <= n,
            out@.map_values(|x: Badge| badge_view(x)) == st + Seq::new(
                i as nat,
                |k: int| (seq!['#'] + tv[k], None::<Seq<char>>),
            ),
        decreases n - i,
    {
        let label = hash_label(b.tag_names[i].as_str());
        let ghost before = out@.map_values(|x: Badge| badge_view(x));
        out.push(Badge { text: label, kind: None });
        proof {
            assert(tv[i as int] == b.tag_names@[i as int]@);
            assert(out@.map_values(|x: Badge| badge_view(x)) =~= before.push(
                (seq!['#'] + tv[i as int], None::<Seq<char>>),
            ));
            assert(st + Seq::new((i + 1) as nat, |k: int| (seq!['#'] + tv[k], None::<Seq<char>>))
                =~= (st + Seq::new(i as nat, |k: int| (seq!['#'] + tv[k], None::<Seq<char>>))).push(
                (seq!['#'] + tv[i as int], None::<Seq<char>>),
            ));
        }
        i = i + 1;
    }
    out
}


/// Law: a row shows the "unread", "shared" and "archived" badges (with their
/// style classes) exactly when the bookmark has that flag; tag badges never
/// take their place.
pub proof fn law_status_badges(b: BookmarkView)
    ensures
        badges_text(b).contains(("unread"@, Some("unread"@))) <==> b.unread,
        badges_text(b).contains(("shared"@, Some("shared"@))) <==> b.shared,
        badges_text(b).contains(("archived"@, None::<Seq<char>>)) <==> b.is_archived,
{
    reveal_strlit("unread");
    reveal_strlit("shared");
    reveal_strlit("archived");
    let u = ("unread"@, Some("unread"@));
    let s = ("shared"@, Some("shared"@));
    let a = ("archived"@, None::<Seq<char>>);
    let st = status_badges(b);
    let all = badges_text(b);
    let n = all.len() - st.len();
    assert(u != s && u != a && s != a) by {
        assert(u.0[0] != s.0[0]);
        assert(u.0[0] != a.0[0]);
        assert(s.0[0] != a.0[0]);
    }
    // Tag badges start with '#', status badges do not.
    assert forall|k: int| st.len() <= k < all.len() implies (#[trigger] all[k]).0[0] == '#' by {}
    assert(u.0[0] != '#' && s.0[0] != '#' && a.0[0] != '#');
    assert forall|k: int| 0 <= k < st.len() implies #[trigger] all[k] == st[k] by {}
    if b.unread {
        assert(all[0] == u);
    }
    if b.shared {
        let i = if b.unread { 1int } else { 0int };
        assert(all[i] == s);
    }
    if b.is_archived {
        let i = (if b.unread { 1int } else { 0int }) + (if b.shared { 1int } else { 0int });
        assert(all[i] == a);
    }
    if all.contains(u) {
        let k = choose|k: int| 0 <= k < all.len() && all[k] == u;
        if k >= st.len() {
            assert(all[k].0[0] == '#');
        }
    }
    if all.contains(s) {
        let k = choose|k: int| 0 <= k < all.len() && all[k] == s;
        if k >= st.len() {
            assert(all[k].0[0] == '#');
        }
    }
    if all.contains(a) {
        let k = choose|k: int| 0 <= k < all.len() && all[k] == a;
        if k >= st.len() {
            assert(all[k].0[0] == '#');
        }
    }
}


/// Law: after the status badges a row shows one `#tag` badge for each of
/// the bookmark's first four tags, in order, and no other badge.
pub proof fn law_tag_badges(b: BookmarkView)
    ensures
        ({
            let n = b.tag_names@.len();
            let shown = if n < 4 {
                n as int
            } else {
                4int
            };
            let s = (if b.unread {
                1int
            } else {
                0int
            }) + (if b.shared {
                1int
            } else {
                0int
            }) + (if b.is_archived {
                1int
            } else {
                0int
            });
            &&& badges_text(b).len() == s + shown
            &&& forall|k: int|
                #![trigger b.tag_names@[k]]
                0 <= k < shown ==> badges_text(b)[s + k] == (
                    seq!['#'] + b.tag_names@[k]@,
                    None::<Seq<char>>,
                )
        }),
{
}

} // verus!
