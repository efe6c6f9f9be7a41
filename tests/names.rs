use teambot::text::{contains_backtick, escape_markdown, join_words, parse_decimal, push_decimal, sanitize, NameError};

fn words(ws: &[&str]) -> Vec<String> {
    ws.iter().map(|w| w.to_string()).collect()
}

#[test]
fn words_join_with_single_spaces() {
    assert_eq!(join_words(&words(&["Pixel", "Quest"])), "Pixel Quest");
    assert_eq!(join_words(&words(&[])), "");
    assert_eq!(join_words(&words(&["one"])), "one");
    assert_eq!(join_words(&words(&["a", "", "b"])), "a  b");
}

#[test]
fn sanitize_plain_name() {
    assert_eq!(sanitize(&words(&["Pixel", "Quest"])), Ok("Pixel Quest".to_string()));
}

#[test]
fn sanitize_empty_name() {
    assert_eq!(sanitize(&words(&[])), Err(NameError::Empty));
    assert_eq!(sanitize(&words(&[""])), Err(NameError::Empty));
}

#[test]
fn sanitize_refuses_backtick() {
    assert_eq!(sanitize(&words(&["bad`name"])), Err(NameError::ForbiddenCharacter));
    assert_eq!(sanitize(&words(&["a*b", "`"])), Err(NameError::ForbiddenCharacter));
}

#[test]
fn sanitize_escapes_every_special_character() {
    assert_eq!(
        sanitize(&words(&["-_+*\"#=.\u{b7}\\<>{}"])),
        Ok("\\-\\_\\+\\*\\\"\\#\\=\\.\\\u{b7}\\\\\\<\\>\\{\\}".to_string())
    );
    assert_eq!(sanitize(&words(&["--"])), Ok("\\-\\-".to_string()));
    assert_eq!(sanitize(&words(&["my_game", "v2.0"])), Ok("my\\_game v2\\.0".to_string()));
}

#[test]
fn escaping_leaves_plain_names_alone() {
    let once = escape_markdown("Pixel Quest");
    assert_eq!(once, "Pixel Quest");
    assert_eq!(escape_markdown(&once), once);
}

#[test]
fn escaping_an_escaped_name_escapes_again() {
    let once = escape_markdown("a.b");
    assert_eq!(once, "a\\.b");
    let twice = escape_markdown(&once);
    assert_eq!(twice, "a\\\\\\.b");
    assert_ne!(twice, once);
}

#[test]
fn escaping_is_deterministic() {
    assert_eq!(escape_markdown("x<y>z"), escape_markdown("x<y>z"));
}

#[test]
fn backticks_are_found() {
    assert!(contains_backtick("a`b"));
    assert!(contains_backtick("`"));
    assert!(!contains_backtick("abc"));
    assert!(!contains_backtick(""));
}

#[test]
fn decimals_are_written() {
    let mut s = String::from("id ");
    push_decimal(&mut s, 0);
    assert_eq!(s, "id 0");
    let mut s = String::new();
    push_decimal(&mut s, u64::MAX);
    assert_eq!(s, "18446744073709551615");
    let mut s = String::new();
    push_decimal(&mut s, 1020);
    assert_eq!(s, "1020");
}

#[test]
fn decimals_are_read() {
    assert_eq!(parse_decimal("1020"), Some(1020));
    assert_eq!(parse_decimal(""), None);
    assert_eq!(parse_decimal("1 2"), None);
    assert_eq!(parse_decimal("18446744073709551615"), Some(u64::MAX));
    assert_eq!(parse_decimal("18446744073709551616"), None);
}
