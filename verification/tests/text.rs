use rule_defs::text::same_text;
use rule_defs::text::starts_with;

#[test]
fn starts_with_plain_prefix() {
    assert!(starts_with("starlark_rule", "starlark_"));
    assert!(!starts_with("rule_starlark_", "starlark_"));
}

#[test]
fn starts_with_empty_prefix_and_whole_text() {
    assert!(starts_with("abc", ""));
    assert!(starts_with("", ""));
    assert!(starts_with("abc", "abc"));
    assert!(!starts_with("ab", "abc"));
    assert!(!starts_with("", "a"));
}

#[test]
fn starts_with_compares_characters_not_bytes() {
    assert!(starts_with("\u{e9}t\u{e9}", "\u{e9}"));
    assert!(!starts_with("\u{e9}t\u{e9}", "e"));
    assert!(starts_with("\u{65e5}\u{672c}\u{8a9e}", "\u{65e5}\u{672c}"));
    assert!(!starts_with("\u{65e5}\u{672c}\u{8a9e}", "\u{672c}"));
}

#[test]
fn same_text_equal_and_different() {
    assert!(same_text("", ""));
    assert!(same_text("soft_error", "soft_error"));
    assert!(!same_text("soft_error", "soft_errors"));
    assert!(!same_text("soft_error", "soft_errov"));
    assert!(!same_text("a", ""));
    assert!(same_text("\u{65e5}\u{672c}", "\u{65e5}\u{672c}"));
    assert!(!same_text("\u{65e5}\u{672c}", "\u{65e5}\u{8a9e}"));
}
