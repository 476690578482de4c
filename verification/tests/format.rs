use emoji_shortcode::format::{decimal, hex_upper, join, join_with};

fn strings(parts: &[&str]) -> Vec<String> {
    parts.iter().map(|part| part.to_string()).collect()
}

#[test]
fn hex_upper_has_no_leading_zeros() {
    assert_eq!(hex_upper(0), "0");
    assert_eq!(hex_upper(9), "9");
    assert_eq!(hex_upper(10), "A");
    assert_eq!(hex_upper(15), "F");
    assert_eq!(hex_upper(16), "10");
    assert_eq!(hex_upper(255), "FF");
    assert_eq!(hex_upper(0x1F680), "1F680");
    assert_eq!(hex_upper(0xFE0F), "FE0F");
    assert_eq!(hex_upper(u32::MAX), "FFFFFFFF");
}

#[test]
fn hex_upper_agrees_with_std() {
    for n in [0u32, 1, 7, 31, 4095, 4096, 65535, 0x10FFFF, 0xDEADBEEF] {
        assert_eq!(hex_upper(n), format!("{:X}", n));
    }
}

#[test]
fn decimal_has_no_leading_zeros() {
    assert_eq!(decimal(0), "0");
    assert_eq!(decimal(7), "7");
    assert_eq!(decimal(10), "10");
    assert_eq!(decimal(15), "15");
    assert_eq!(decimal(1000), "1000");
    assert_eq!(decimal(4294967295), "4294967295");
}

#[test]
fn decimal_agrees_with_std() {
    for n in [0u32, 9, 99, 100, 101, 12345, 1_000_000_007] {
        assert_eq!(decimal(n), format!("{}", n));
    }
}

#[test]
fn join_puts_the_separator_between() {
    assert_eq!(join(&strings(&[]), ", "), "");
    assert_eq!(join(&strings(&["laughing"]), ", "), "laughing");
    assert_eq!(join(&strings(&["laughing", "satisfied"]), ", "), "laughing, satisfied");
    assert_eq!(join(&strings(&["a", "b", "c"]), ", "), "a, b, c");
    assert_eq!(join(&strings(&["a", "", "c"]), "-"), "a--c");
    assert_eq!(join(&strings(&["", ""]), ", "), ", ");
    assert_eq!(join(&strings(&["a", "b"]), ""), "ab");
}

#[test]
fn join_takes_a_long_separator() {
    assert_eq!(join(&strings(&["a", "b", "c"]), " <and then> "), "a <and then> b <and then> c");
}

#[test]
fn join_with_puts_the_separator_between() {
    assert_eq!(join_with(&strings(&[]), ", "), "");
    assert_eq!(join_with(&strings(&["🤞"]), ", "), "🤞");
    assert_eq!(join_with(&strings(&["🤞", "🤞🏻", "🤞🏼"]), ", "), "🤞, 🤞🏻, 🤞🏼");
    assert_eq!(join_with(&strings(&["1F44B", "1F3FB"]), " "), "1F44B 1F3FB");
}

#[test]
fn both_joins_agree() {
    let parts = strings(&["x", "yy", "", "zzz"]);
    assert_eq!(join(&parts, ", "), join_with(&parts, ", "));
    assert_eq!(join(&parts, ", "), parts.join(", "));
}
