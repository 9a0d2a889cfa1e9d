use content_density::string::{escape_default, remove_blank};

#[test]
fn remove_blank_drops_spaces_tabs_and_line_breaks() {
    let s = String::from(" a b\tc\nd\re ");
    assert_eq!(remove_blank(&s), "abcde");
}

#[test]
fn remove_blank_of_empty_text_is_empty() {
    assert_eq!(remove_blank(&String::new()), "");
}

#[test]
fn remove_blank_keeps_other_characters() {
    let s = String::from("\u{4F60}\u{597D}\u{3000}x\u{00A0}y");
    assert_eq!(remove_blank(&s), "\u{4F60}\u{597D}\u{3000}x\u{00A0}y");
}

#[test]
fn remove_blank_is_idempotent() {
    let s = String::from(" one\ttwo \n three ");
    let once = remove_blank(&s);
    assert_eq!(remove_blank(&once), once);
}

fn std_escape(s: &str) -> String {
    s.chars().flat_map(|c| c.escape_default()).collect()
}

#[test]
fn escape_default_escapes_controls_and_quotes() {
    assert_eq!(escape_default("a\tb\r\n"), "a\\tb\\r\\n");
    assert_eq!(escape_default("'\"\\"), "\\'\\\"\\\\");
}

#[test]
fn escape_default_writes_code_points_in_hex() {
    assert_eq!(escape_default("\u{0}"), "\\u{0}");
    assert_eq!(escape_default("\u{e9}"), "\\u{e9}");
    assert_eq!(escape_default("\u{1F600}"), "\\u{1f600}");
    assert_eq!(escape_default("\u{7f}"), "\\u{7f}");
}

#[test]
fn escape_default_keeps_plain_ascii() {
    assert_eq!(escape_default("Hello, world ~ 42"), "Hello, world ~ 42");
    assert_eq!(escape_default(""), "");
}

#[test]
fn escape_default_agrees_with_std() {
    for s in ["", "plain", "tab\there", "\u{4F60}\u{597D}", "\u{10FFFF}\u{FFFF}\u{1}", "'q' \"dq\" \\"] {
        assert_eq!(escape_default(s), std_escape(s));
    }
}

#[test]
fn escape_default_output_is_printable_ascii() {
    let out = escape_default("\u{0}\u{1F}\u{7F}\u{80}\u{4F60}\t\n");
    assert!(out.chars().all(|c| (' '..='~').contains(&c)));
}

#[test]
fn escape_default_of_concatenation_is_concatenation_of_escapes() {
    let a = "x\u{e9}\t";
    let b = "\"y\u{2018}";
    let ab = format!("{}{}", a, b);
    assert_eq!(escape_default(&ab), format!("{}{}", escape_default(a), escape_default(b)));
}

#[test]
fn remove_blank_of_concatenation_is_concatenation() {
    let a = String::from("a b ");
    let b = String::from("\tc d");
    let ab = format!("{}{}", a, b);
    assert_eq!(remove_blank(&ab), format!("{}{}", remove_blank(&a), remove_blank(&b)));
}
