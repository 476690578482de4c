use emoji_shortcode::directory::same_bytes;
use emoji_shortcode::token::{find_colon, next_token, COLON};

#[test]
fn colon_is_the_delimiter() {
    assert_eq!(COLON, b':');
}

#[test]
fn find_colon_gives_the_first_offset() {
    assert_eq!(find_colon(b":rocket:", 0), Some(0));
    assert_eq!(find_colon(b":rocket:", 1), Some(7));
    assert_eq!(find_colon(b":rocket:", 7), Some(7));
    assert_eq!(find_colon(b":rocket:", 8), None);
    assert_eq!(find_colon(b":rocket:", 100), None);
    assert_eq!(find_colon(b"no delimiter", 0), None);
    assert_eq!(find_colon(b"", 0), None);
}

#[test]
fn next_token_gives_the_four_offsets() {
    let token = next_token(b"go :rocket: go").unwrap();
    assert_eq!(token.start, 3);
    assert_eq!(token.code_start, 4);
    assert_eq!(token.code_end, 10);
    assert_eq!(token.end, 11);
    assert_eq!(&b"go :rocket: go"[token.start..token.end], b":rocket:");
    assert_eq!(&b"go :rocket: go"[token.code_start..token.code_end], b"rocket");
}

#[test]
fn next_token_needs_two_colons() {
    assert!(next_token(b"").is_none());
    assert!(next_token(b"none").is_none());
    assert!(next_token(b"end:").is_none());
    assert!(next_token(b":start").is_none());
    let token = next_token(b"::").unwrap();
    assert_eq!((token.start, token.code_start, token.code_end, token.end), (0, 1, 1, 2));
}

#[test]
fn next_token_counts_bytes() {
    let text = "é:日本:x";
    let token = next_token(text.as_bytes()).unwrap();
    assert_eq!((token.start, token.code_end), (2, 9));
    assert_eq!(&text[token.code_start..token.code_end], "日本");
}

#[test]
fn same_bytes_compares_contents() {
    assert!(same_bytes(b"", b""));
    assert!(same_bytes(b":a:", b":a:"));
    assert!(!same_bytes(b":a:", b":b:"));
    assert!(!same_bytes(b":a:", b":a"));
    assert!(!same_bytes(b"", b":"));
}
