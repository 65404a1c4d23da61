use lavish::text::truncate;

#[test]
fn within_budget_unchanged() {
    assert_eq!(truncate("hi", 8), "hi");
}

#[test]
fn exact_budget_unchanged() {
    assert_eq!(truncate("abcdefgh", 8), "abcdefgh");
}

#[test]
fn empty_unchanged() {
    assert_eq!(truncate("", 0), "");
}

#[test]
fn long_input_gets_ellipsis() {
    // prefix of 8 chars is "hello wo", minus 3 chars, plus "..."
    assert_eq!(truncate("hello world", 8), "hello...");
}

#[test]
fn tiny_budget_saturates_to_ellipsis() {
    assert_eq!(truncate("abc", 2), "...");
}

#[test]
fn zero_budget_on_nonempty_is_ellipsis() {
    assert_eq!(truncate("abcdef", 0), "...");
}

#[test]
fn counts_characters_not_bytes() {
    // 11 characters, several of them multi-byte
    assert_eq!(truncate("h\u{e9}llo w\u{f6}rld", 8), "h\u{e9}llo...");
}

#[test]
fn result_never_longer_than_budget_or_ellipsis() {
    assert_eq!(truncate("abcdefghij", 5).chars().count(), 5);
    assert_eq!(truncate("abcdefghij", 1).chars().count(), 3);
    assert_eq!(truncate("abcdefghij", 3).chars().count(), 3);
}
