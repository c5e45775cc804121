use oxidy::buffer::{blank, first_word};
use oxidy::text::{
    char_count, concat_lines, from_chars, insert_char_at, remove_char_at, same_text,
    split_line_at, to_chars,
};

#[test]
fn characters_are_counted_not_bytes() {
    assert_eq!(char_count(""), 0);
    assert_eq!(char_count("héllo"), 5);
    assert_eq!(char_count("𝒳€"), 2);
    assert_eq!(to_chars("hé𝒳"), vec!['h', 'é', '𝒳']);
    assert!(to_chars("").is_empty());
}

#[test]
fn strings_are_built_from_characters() {
    let chars: Vec<char> = "héllo".chars().collect();
    assert_eq!(from_chars(&chars, 0, 5), "héllo");
    assert_eq!(from_chars(&chars, 1, 3), "él");
    assert_eq!(from_chars(&chars, 2, 2), "");
    assert_eq!(from_chars(&chars, 5, 5), "");
    assert_eq!(from_chars(&chars, 3, 9), "lo");
    assert_eq!(from_chars(&chars, 4, 2), "");
    assert_eq!(from_chars(&chars, 7, 9), "");
}

#[test]
fn a_character_is_inserted_at_its_column() {
    assert_eq!(insert_char_at("héllo", 0, 'x'), "xhéllo");
    assert_eq!(insert_char_at("héllo", 2, 'ß'), "héßllo");
    assert_eq!(insert_char_at("héllo", 5, '!'), "héllo!");
    assert_eq!(insert_char_at("", 0, 'é'), "é");
    assert_eq!(insert_char_at("ab", 7, 'c'), "abc");
}

#[test]
fn a_character_is_removed_at_its_column() {
    assert_eq!(remove_char_at("héllo", 0), "éllo");
    assert_eq!(remove_char_at("héllo", 1), "hllo");
    assert_eq!(remove_char_at("héllo", 4), "héll");
    assert_eq!(remove_char_at("é", 0), "");
    assert_eq!(remove_char_at("héllo", 5), "héllo");
    assert_eq!(remove_char_at("", 0), "");
}

#[test]
fn lines_are_split_and_joined() {
    assert_eq!(split_line_at("héllo", 2), ("hé".to_string(), "llo".to_string()));
    assert_eq!(split_line_at("héllo", 0), (String::new(), "héllo".to_string()));
    assert_eq!(split_line_at("héllo", 5), ("héllo".to_string(), String::new()));
    assert_eq!(split_line_at("héllo", 9), ("héllo".to_string(), String::new()));
    assert_eq!(concat_lines("hé", "llo"), "héllo");
    assert_eq!(concat_lines("", ""), "");
}

#[test]
fn texts_are_compared_by_their_characters() {
    assert!(same_text("", ""));
    assert!(same_text("héllo", "héllo"));
    assert!(!same_text("héllo", "hello"));
    assert!(!same_text("ab", "abc"));
    assert!(!same_text("abc", "ab"));
    assert!(!same_text("abc", "abd"));
}

#[test]
fn white_space() {
    for c in [' ', '\t', '\n', '\r', '\u{b}', '\u{c}', '\u{85}', '\u{a0}', '\u{2003}', '\u{3000}'] {
        assert!(blank(c), "{:?}", c);
        assert!(c.is_whitespace());
    }
    for c in ['a', '0', '_', 'é', '\u{200b}', '\u{8}', '\u{e}'] {
        assert!(!blank(c), "{:?}", c);
        assert!(!c.is_whitespace());
    }
}

#[test]
fn the_first_word_of_a_line() {
    assert_eq!(first_word("  x"), 2);
    assert_eq!(first_word("x  "), 0);
    assert_eq!(first_word(" \t\u{a0}é"), 3);
    assert_eq!(first_word("   "), 0);
    assert_eq!(first_word(""), 0);
}
