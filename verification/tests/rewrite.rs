use emoji_shortcode::database::EmojiDatabase;
use emoji_shortcode::directory::{EmojiDirectory, TableDirectory};
use emoji_shortcode::scan::{replace, rewrite};

fn table(pairs: &[(&str, &str)]) -> TableDirectory {
    let mut directory = TableDirectory::new();
    for (code, glyph) in pairs {
        directory.insert(code, glyph);
    }
    directory
}

#[test]
fn text_without_colon_passes_through() {
    let directory = table(&[(":rocket:", "🚀")]);
    assert_eq!(rewrite("plain text, no delimiter", &directory), "plain text, no delimiter");
    assert_eq!(replace("plain text, no delimiter"), "plain text, no delimiter");
}

#[test]
fn colons_without_known_shortcode_change_nothing() {
    let directory = table(&[(":rocket:", "🚀")]);
    let text = "a:b:c :: 12:30:45 :rocket :ROCKET: end";
    assert_eq!(rewrite(text, &directory), text);
}

#[test]
fn single_substitution() {
    let directory = table(&[(":rocket:", "🚀")]);
    assert_eq!(rewrite("go :rocket: go", &directory), "go 🚀 go");
}

#[test]
fn unmatched_trailing_colon_is_preserved() {
    let directory = table(&[(":rocket:", "🚀")]);
    assert_eq!(rewrite("end:", &directory), "end:");
    assert_eq!(rewrite("end:", &TableDirectory::new()), "end:");
    assert_eq!(replace("end:"), "end:");
}

#[test]
fn unknown_shortcode_is_left_verbatim() {
    let directory = table(&[(":rocket:", "🚀")]);
    assert_eq!(rewrite(":nope: text", &directory), ":nope: text");
}

#[test]
fn shared_colon_opens_the_next_token() {
    let directory = table(&[(":b:", "B")]);
    assert_eq!(rewrite("::b:", &directory), ":B");
    assert_eq!(rewrite(":a:b:", &directory), ":aB");
    assert_eq!(rewrite("x::b:", &directory), "x:B");
}

#[test]
fn failed_opening_colon_is_not_tried_again() {
    let directory = table(&[(":rocket:", "🚀")]);
    assert_eq!(rewrite("::rocket:", &directory), ":🚀");
    assert_eq!(rewrite(":x:rocket:", &directory), ":x🚀");
}

#[test]
fn found_token_consumes_both_colons() {
    let directory = table(&[(":a:", "A"), (":b:", "B")]);
    assert_eq!(rewrite(":a:b:", &directory), "Ab:");
    assert_eq!(rewrite(":a::b:", &directory), "AB");
}

#[test]
fn multiple_independent_substitutions() {
    let directory = table(&[(":smile:", "😄"), (":rocket:", "🚀")]);
    assert_eq!(rewrite(":smile: to the :rocket:", &directory), "😄 to the 🚀");
}

#[test]
fn empty_input_gives_empty_output() {
    let directory = table(&[(":rocket:", "🚀")]);
    assert_eq!(rewrite("", &directory), "");
    assert_eq!(rewrite("", &TableDirectory::new()), "");
    assert_eq!(replace(""), "");
}

#[test]
fn lone_colons() {
    let directory = table(&[(":b:", "B")]);
    assert_eq!(rewrite(":", &directory), ":");
    assert_eq!(rewrite("::", &directory), "::");
    assert_eq!(rewrite(":::", &directory), ":::");
}

#[test]
fn empty_code_can_be_an_entry() {
    let directory = table(&[("::", "!")]);
    assert_eq!(rewrite("a::b", &directory), "a!b");
    assert_eq!(rewrite(":::", &directory), "!:");
}

#[test]
fn multibyte_text_stays_valid() {
    let directory = table(&[(":rocket:", "🚀"), (":é:", "ê")]);
    let out = rewrite("héllo :rocket: wörld ✓ :é: 日本語:", &directory);
    assert_eq!(out, "héllo 🚀 wörld ✓ ê 日本語:");
    assert!(std::str::from_utf8(out.as_bytes()).is_ok());
    let kept = rewrite("日:本:語", &directory);
    assert_eq!(kept, "日:本:語");
}

#[test]
fn replace_uses_the_emoji_database() {
    assert_eq!(replace("go :rocket: go"), "go 🚀 go");
    assert_eq!(replace(":smile: to the :rocket:"), "😄 to the 🚀");
    assert_eq!(replace("launch :rocket:!"), "launch 🚀!");
}

#[test]
fn replace_leaves_unknown_shortcodes() {
    assert_eq!(
        replace(":this_is_no_shortcode_at_all: text"),
        ":this_is_no_shortcode_at_all: text"
    );
    assert_eq!(replace("::rocket:"), ":🚀");
    assert_eq!(replace("rocket"), "rocket");
}

#[test]
fn database_lookup_takes_the_colons() {
    let database = EmojiDatabase;
    assert_eq!(database.lookup_by_shortcode(":rocket:"), Some("🚀".to_string()));
    assert_eq!(database.lookup_by_shortcode("rocket"), None);
    assert_eq!(database.lookup_by_shortcode(":rocket"), None);
    assert_eq!(database.lookup_by_shortcode("rocket:"), None);
    assert_eq!(database.lookup_by_shortcode(":"), None);
    assert_eq!(database.lookup_by_shortcode("::"), None);
    assert_eq!(database.lookup_by_shortcode(""), None);
    assert_eq!(database.lookup_by_shortcode(":no such code:"), None);
}

#[test]
fn table_lookup_is_exact() {
    let directory = table(&[(":rocket:", "🚀"), (":b:", "B")]);
    assert_eq!(directory.lookup_by_shortcode(":rocket:"), Some("🚀".to_string()));
    assert_eq!(directory.lookup_by_shortcode(":b:"), Some("B".to_string()));
    assert_eq!(directory.lookup_by_shortcode("rocket"), None);
    assert_eq!(directory.lookup_by_shortcode(":Rocket:"), None);
    assert_eq!(directory.lookup_by_shortcode(":rocket: "), None);
    assert_eq!(TableDirectory::new().lookup_by_shortcode(":rocket:"), None);
}

#[test]
fn later_entry_replaces_earlier_one() {
    let directory = table(&[(":x:", "1"), (":y:", "2"), (":x:", "3")]);
    assert_eq!(directory.lookup_by_shortcode(":x:"), Some("3".to_string()));
    assert_eq!(rewrite(":x::y:", &directory), "32");
}
