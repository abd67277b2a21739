use prunr_app::paths::{any_component_is, extension, file_name_of, file_stem, join_path, with_file_name};
use prunr_app::text::{
    contains_text, join3, read_hex_pair, same_text, text_of, to_decimal, to_decimal4, to_lowered,
    trim,
};
use std::path::Path;

#[test]
fn path_parts_are_those_of_std() {
    for p in [
        "a.png", "/x/y/a.tar.gz", ".hidden", "..", "/", "", "a/", "a/.", "./b", "dir.d/file", "a..b",
        "/x//y", "x/.bashrc", "a.", "über.png",
    ] {
        let std_path = Path::new(p);
        let stem = std_path.file_stem().and_then(|s| s.to_str()).map(|s| s.to_string());
        let ext = std_path.extension().and_then(|s| s.to_str()).map(|s| s.to_string());
        let name = std_path.file_name().and_then(|s| s.to_str()).map(|s| s.to_string());
        assert_eq!(file_stem(p), stem, "stem of {p:?}");
        assert_eq!(extension(p), ext, "extension of {p:?}");
        assert_eq!(file_name_of(p), name, "name of {p:?}");
        let std_with = std_path.with_file_name("z.png");
        assert_eq!(Path::new(&with_file_name(p, "z.png")), std_with, "renamed {p:?}");
        assert_eq!(join_path(p, "z"), std_path.join("z").to_str().unwrap(), "joined {p:?}");
    }
    assert!(any_component_is("/a/b/c", "b"));
    assert!(!any_component_is("/a/bb/c", "b"));
}

#[test]
fn texts_are_taken_apart_like_in_std() {
    for s in ["", " a b ", "\t\u{a0}x\u{3000}", "no"] {
        assert_eq!(text_of(&trim(s)), s.trim());
    }
    for n in [0u64, 7, 10, 999, 1000, u64::MAX] {
        assert_eq!(to_decimal(n), n.to_string());
        assert_eq!(to_decimal4(n), format!("{n:04}"));
    }
    let upper: Vec<char> = "ÄbC".chars().collect();
    assert_eq!(text_of(&to_lowered(&upper)), "ÄbC".to_ascii_lowercase());
    assert!(contains_text("abcabd", "abd"));
    assert!(contains_text("abc", ""));
    assert!(!contains_text("ab", "abc"));
    assert!(!contains_text("aab", "ba"));
    assert!(same_text("x", "x") && !same_text("x", "y"));
    assert_eq!(join3("a", "b", "c"), "abc");
    assert_eq!(read_hex_pair('f', 'F'), Some(255));
    assert_eq!(read_hex_pair('g', '0'), None);
    assert_eq!(read_hex_pair('+', '5'), None);
}
