use auto_claude::text::replace_all;

#[test]
fn replaces_like_str_replace() {
    assert_eq!(replace_all("a\r\nb\r\n", "\r\n", "\n"), "a\nb\n");
    assert_eq!(replace_all("aaa", "aa", "b"), "ba");
    assert_eq!(replace_all("abc", "", "x"), "abc".replace("", "x"));
    assert_eq!(replace_all("", "", "x"), "x");
}
