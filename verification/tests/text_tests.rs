use rime_install::text::{
    chars_of, ends_with, is_whitespace, replace_backslashes, split_whitespace,
    starts_with, str_eq, trim_str,
};

#[test]
fn whitespace_agrees_with_std() {
    for n in 0u32..=0x10FFFF {
        if let Some(c) = char::from_u32(n) {
            assert_eq!(is_whitespace(c), c.is_whitespace(), "{:x}", n);
        }
    }
}

#[test]
fn split_whitespace_agrees_with_std() {
    for s in ["", "  ", "a", " a  b\tc\n", "\u{3000}x\u{85}y\u{a0}", "αβ γ", "a\u{200b}b"] {
        let ours = split_whitespace(s);
        let std: Vec<String> = s.split_whitespace().map(|x| x.to_string()).collect();
        assert_eq!(ours, std);
    }
}

#[test]
fn trim_agrees_with_std() {
    for s in ["", "  ", " a ", "\ta b\n", "\u{2028}x\u{3000}", "x"] {
        assert_eq!(trim_str(s), s.trim());
    }
}

#[test]
fn backslashes_become_slashes() {
    assert_eq!(replace_backslashes(r"C:\Users\me\plum"), "C:/Users/me/plum");
    assert_eq!(replace_backslashes(r"\\"), "//");
    assert_eq!(replace_backslashes("a/b"), "a/b");
    assert_eq!(replace_backslashes(""), "");
}

#[test]
fn prefix_suffix_and_equality() {
    assert!(starts_with("https://x", "https://"));
    assert!(!starts_with("http", "https://"));
    assert!(ends_with("a-packages.conf", "-packages.conf"));
    assert!(!ends_with("conf", "-packages.conf"));
    assert!(str_eq("rime", "rime"));
    assert!(!str_eq("rime", "rime-"));
    assert_eq!(chars_of("中a"), vec!['中', 'a']);
}
