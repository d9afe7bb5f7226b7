use anchorage::api::BookmarkView;
use anchorage::numerals::{i32_to_string, parse_i32, u64_to_string};
use anchorage::rows::{badges, hash_label, meta_line, row_id, row_name};

#[test]
fn row_ids_roundtrip() {
    for id in [0, 1, -1, 42, 1234567, i32::MAX, i32::MIN] {
        assert_eq!(row_name(id), id.to_string());
        assert_eq!(row_id(&row_name(id)), Some(id));
    }
}

#[test]
fn parse_matches_std() {
    for s in ["", "+", "-", "+7", "-0", "007", "12a", " 1", "2147483647", "2147483648", "-2147483648", "-2147483649", "99999999999999999999"] {
        assert_eq!(parse_i32(s), s.parse::<i32>().ok(), "input {s:?}");
    }
}

#[test]
fn numerals_match_std() {
    for n in [0u64, 9, 10, 99, 100, 65535, u64::MAX] {
        assert_eq!(u64_to_string(n), n.to_string());
    }
    assert_eq!(i32_to_string(-100), "-100");
}

#[test]
fn row_decorations() {
    let b = BookmarkView {
        id: 3,
        url: "https://news.ycombinator.com/item?id=1".into(),
        title: String::new(),
        description: String::new(),
        notes: String::new(),
        tag_names: vec!["a".into(), "b".into(), "c".into(), "d".into(), "e".into()],
        website_title: None,
        website_description: None,
        favicon_url: None,
        unread: true,
        shared: false,
        is_archived: true,
        date_added: "2026-07-14T09:46:23Z".into(),
    };
    assert_eq!(meta_line(&b), "news.ycombinator.com \u{b7} 2026-07-14");
    let got: Vec<(String, Option<&str>)> = badges(&b).into_iter().map(|x| (x.text, x.kind)).collect();
    let want: Vec<(String, Option<&str>)> = vec![
        ("unread".into(), Some("unread")),
        ("archived".into(), None),
        ("#a".into(), None),
        ("#b".into(), None),
        ("#c".into(), None),
        ("#d".into(), None),
    ];
    assert_eq!(got, want);
    assert_eq!(hash_label("rust"), "#rust");
}
