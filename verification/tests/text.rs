use asset_cache::text::{
    characters, join_path, replace_all, same_bytes, same_text, text_contains,
};

#[test]
fn equal_texts() {
    assert!(same_text("", ""));
    assert!(same_text("größe", "größe"));
    assert!(!same_text("abc", "abd"));
    assert!(!same_text("abc", "ab"));
}

#[test]
fn equal_bytes() {
    assert!(same_bytes(b"", b""));
    assert!(same_bytes(b"ab", b"ab"));
    assert!(!same_bytes(b"ab", b"ac"));
    assert!(!same_bytes(b"ab", b"abc"));
}

#[test]
fn characters_of_a_text() {
    assert_eq!(characters("aß→"), vec!['a', 'ß', '→']);
    assert_eq!(characters(""), Vec::new());
}

#[test]
fn part_of_a_text() {
    assert!(text_contains("hello", "ell"));
    assert!(text_contains("hello", "lo"));
    assert!(text_contains("hello", ""));
    assert!(text_contains("", ""));
    assert!(!text_contains("", "a"));
    assert!(!text_contains("hello", "hellos"));
    assert!(!text_contains("hello", "Hell"));
    assert!(text_contains("straße", "ß"));
}

#[test]
fn replacing_goes_from_left_to_right() {
    assert_eq!(replace_all("aaa", "aa", "b"), "ba");
    assert_eq!(replace_all("abcabc", "abc", ""), "");
    assert_eq!(replace_all("x~y~", "~", "--"), "x--y--");
    assert_eq!(replace_all("größe", "ö", "oe"), "groeße");
    assert_eq!(replace_all("", "a", "b"), "");
    assert_eq!(replace_all("abc", "d", "e"), "abc");
}

#[test]
fn replacing_is_not_repeated() {
    assert_eq!(replace_all("ab", "a", "aa"), "aab");
    assert_eq!(replace_all("aab", "ab", "b"), "ab");
}

#[test]
fn replacing_agrees_with_the_standard_library() {
    let cases = [("a.b.c", ".", "->"), ("~~", "~", "~x"), ("mississippi", "issi", "I"), ("é~é", "~", "/h")];
    for (text, from, to) in cases {
        assert_eq!(replace_all(text, from, to), text.replace(from, to));
    }
}

#[test]
fn paths_are_joined_by_a_slash() {
    assert_eq!(join_path("dir", "name"), "dir/name");
    assert_eq!(join_path("", "name"), "/name");
    assert_eq!(join_path("dir", ""), "dir/");
}
