use andromeda::text::{replace_all_exec, str_eq, trim_exec};

#[test]
fn replacement_scans_from_the_left_without_overlap() {
    assert_eq!(replace_all_exec("aaaa", "aa", "b"), "bb");
    assert_eq!(replace_all_exec("aaa", "aa", "b"), "ba");
    assert_eq!(replace_all_exec("abc", "", "x"), "abc");
    assert_eq!(replace_all_exec("", "a", "x"), "");
    assert_eq!(replace_all_exec("héllo wörld", "ö", "oe"), "héllo woerld");
}

#[test]
fn trimming_removes_unicode_whitespace() {
    assert_eq!(trim_exec("\u{3000} a b\t\n"), "a b");
    assert_eq!(trim_exec("   "), "");
    assert_eq!(trim_exec("x"), "x");
    assert_eq!(trim_exec("\u{85}x\u{a0}"), "x");
    assert!(str_eq("ab", "ab"));
    assert!(!str_eq("ab", "a"));
}
