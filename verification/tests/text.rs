use powertoys_core::text::{push_str, trim_str};

#[test]
fn trim_drops_unicode_white_space_at_both_ends() {
    assert_eq!(trim_str("  a b \t\n"), "a b");
    assert_eq!(trim_str("\u{3000}\u{85}x\u{a0}\u{2028}"), "x");
    assert_eq!(trim_str(" \u{200b}x "), "\u{200b}x");
    assert_eq!(trim_str(" \r\n "), "");
    assert_eq!(trim_str(""), "");
}

#[test]
fn push_str_appends() {
    let mut s = String::from("ab");
    push_str(&mut s, "cd");
    assert_eq!(s, "abcd");
}
