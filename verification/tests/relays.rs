use nostr_dispatch::relays::{parse_relays, RelaysError};

fn ok(value: &str) -> Vec<String> {
    parse_relays(Some(String::from(value))).unwrap()
}

#[test]
fn missing_list_is_refused() {
    assert_eq!(parse_relays(None), Err(RelaysError::NotSet));
}

#[test]
fn blank_list_is_refused() {
    assert_eq!(parse_relays(Some(String::new())), Err(RelaysError::Empty));
    assert_eq!(parse_relays(Some(String::from(" \t\n "))), Err(RelaysError::Empty));
    assert_eq!(parse_relays(Some(String::from("\u{3000}\u{a0}"))), Err(RelaysError::Empty));
}

#[test]
fn addresses_are_split_and_trimmed() {
    assert_eq!(ok("wss://a.example"), vec!["wss://a.example"]);
    assert_eq!(
        ok("  wss://a.example , wss://b.example,wss://c.example \n"),
        vec!["wss://a.example", "wss://b.example", "wss://c.example"]
    );
}

#[test]
fn empty_pieces_are_kept() {
    assert_eq!(ok("a,,b"), vec!["a", "", "b"]);
    assert_eq!(ok("a, "), vec!["a", ""]);
    assert_eq!(ok(",a"), vec!["", "a"]);
}

#[test]
fn unicode_whitespace_is_trimmed() {
    assert_eq!(ok("\u{2003}wss://é.example\u{a0},\u{3000}x"), vec!["wss://é.example", "x"]);
}

#[test]
fn list_matches_std_split_and_trim() {
    for value in ["a,b", " a ,\tb ,c", "x,,y, z", "\u{85}q\u{2028},r", "é , ü"] {
        let expected: Vec<String> = value.trim().split(',').map(|s| s.trim().to_string()).collect();
        assert_eq!(ok(value), expected);
    }
}
