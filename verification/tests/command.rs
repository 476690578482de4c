use emoji_shortcode::command::{answer, run, select, Outcome, Request, UsageError};
use itertools::Itertools;

#[test]
fn list_wins_over_text() {
    assert!(matches!(select(None, true), Ok(Request::List)));
    assert!(matches!(select(Some(":rocket:".to_string()), true), Ok(Request::List)));
}

#[test]
fn text_is_rewritten_without_the_list() {
    match select(Some("go :rocket:".to_string()), false) {
        Ok(Request::Rewrite(text)) => assert_eq!(text, "go :rocket:"),
        _ => panic!("the text was not taken"),
    }
}

#[test]
fn neither_text_nor_list_is_an_error() {
    assert!(matches!(select(None, false), Err(UsageError::MissingInput)));
    assert!(matches!(run(None, false), Err(UsageError::MissingInput)));
}

#[test]
fn usage_error_says_what_was_expected() {
    assert_eq!(UsageError::MissingInput.message(), "requires some input, got None");
    assert_eq!(UsageError::MissingInput.label(), "Expected something from pipeline");
}

#[test]
fn run_rewrites_the_text() {
    match run(Some("go :rocket: go".to_string()), false) {
        Ok(Outcome::Text(text)) => assert_eq!(text, "go 🚀 go"),
        _ => panic!("no text came back"),
    }
    match run(Some(":smirk:".to_string()), false) {
        Ok(Outcome::Text(text)) => assert_eq!(text, "😏"),
        _ => panic!("no text came back"),
    }
    match run(Some(String::new()), false) {
        Ok(Outcome::Text(text)) => assert_eq!(text, ""),
        _ => panic!("no text came back"),
    }
}

#[test]
fn answer_to_a_rewrite_is_a_text() {
    match answer(Request::Rewrite(":nope: :rocket:".to_string())) {
        Outcome::Text(text) => assert_eq!(text, ":nope: 🚀"),
        Outcome::Table(_) => panic!("a table came back"),
    }
}

#[test]
fn run_lists_the_database() {
    let rows = match run(Some("ignored :rocket:".to_string()), true) {
        Ok(Outcome::Table(rows)) => rows,
        _ => panic!("no table came back"),
    };
    let emojis: Vec<&emojis::Emoji> = emojis::iter().collect();
    assert_eq!(rows.len(), emojis.len());
    for (row, emoji) in rows.iter().zip(emojis.iter()) {
        let mut codepoints = String::new();
        for c in emoji.as_str().chars() {
            codepoints.push_str(&format!("{:X} ", c as u32));
        }
        let version = emoji.unicode_version();
        let mut tones = vec![];
        if let Some(all) = emoji.skin_tones() {
            for tone in all {
                tones.push(tone.as_str());
            }
        }
        assert_eq!(row.emoji, emoji.as_str());
        assert_eq!(row.name, emoji.name());
        assert_eq!(row.unicode_version, format!("{}.{}", version.major(), version.minor()));
        assert_eq!(row.group, format!("{:?}", emoji.group()));
        assert_eq!(row.utf8_bytes, format!("{:X?}", emoji.as_bytes()));
        assert_eq!(row.codepoints, codepoints.trim());
        assert_eq!(row.shortcodes, emoji.shortcodes().join(", "));
        assert_eq!(row.skin_tones, tones.join(", "));
    }
}

#[test]
fn listing_holds_the_rocket() {
    let rows = match answer(Request::List) {
        Outcome::Table(rows) => rows,
        Outcome::Text(_) => panic!("a text came back"),
    };
    let rocket = rows.iter().find(|row| row.emoji == "🚀").unwrap();
    assert_eq!(rocket.name, "rocket");
    assert_eq!(rocket.unicode_version, "6.0");
    assert_eq!(rocket.group, "TravelAndPlaces");
    assert_eq!(rocket.utf8_bytes, "[F0, 9F, 9A, 80]");
    assert_eq!(rocket.codepoints, "1F680");
    assert_eq!(rocket.shortcodes, "rocket");
    assert_eq!(rocket.skin_tones, "");
}
