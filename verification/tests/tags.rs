use anchorage::tags::{append_tag, join_with_spaces, new_tag_name, non_empty, parse_tags};

#[test]
fn parses_and_dedups() {
    assert_eq!(parse_tags("rust  #gtk, rust\tnix"), vec!["rust", "gtk", "nix"]);
    assert_eq!(parse_tags("   "), Vec::<String>::new());
}

#[test]
fn parse_tags_separators_and_hashes() {
    assert_eq!(parse_tags(""), Vec::<String>::new());
    assert_eq!(parse_tags("a,b\nc"), vec!["a", "b", "c"]);
    // Only leading hashes are stripped; a lone hash is dropped.
    assert_eq!(parse_tags("##a #b# #"), vec!["a", "b#"]);
    // Other whitespace is trimmed but does not separate.
    assert_eq!(parse_tags("\ra b\u{a0}c"), vec!["a", "b\u{a0}c"]);
}

#[test]
fn tags_roundtrip_through_the_entry() {
    let tags = vec!["rust".to_string(), "gtk".to_string(), "c++".to_string()];
    let text = join_with_spaces(&tags);
    assert_eq!(text, "rust gtk c++");
    assert_eq!(parse_tags(&text), tags);
    assert_eq!(join_with_spaces(&Vec::new()), "");
}

#[test]
fn append_tag_behaviour() {
    assert_eq!(append_tag("", "rust"), Some("rust".to_string()));
    assert_eq!(append_tag("  ", "rust"), Some("  rust".to_string()));
    assert_eq!(append_tag("gtk", "rust"), Some("gtk rust".to_string()));
    assert_eq!(append_tag("gtk, #rust", "rust"), None);
    let appended = append_tag("gtk,", "nix").unwrap();
    assert_eq!(parse_tags(&appended), vec!["gtk", "nix"]);
}

#[test]
fn single_field_cleaning() {
    assert_eq!(non_empty("  hi "), Some("hi".to_string()));
    assert_eq!(non_empty(" \t"), None);
    assert_eq!(new_tag_name("  ##rust "), Some("rust".to_string()));
    assert_eq!(new_tag_name(" # "), None);
}
