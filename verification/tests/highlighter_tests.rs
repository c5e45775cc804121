use oxidy::gapfill::{fill_gaps, sort_by_offset};
use oxidy::highlighter::{
    char_index_of_byte, find_color, tokens_from_spans, utf8_len, ColorEntry, Highlighter,
    LanguageRules, SyntaxRule,
};
use oxidy::types::{Color, Token};

fn token(text: &str, offset: usize, style: Option<Color>) -> Token {
    Token { text: text.to_string(), offset, style }
}

fn plain(text: &str, offset: usize) -> Token {
    token(text, offset, Some(Color::White))
}

fn rust_rules(rules: &[(&str, &str)]) -> Vec<LanguageRules> {
    vec![LanguageRules {
        language: "rs".to_string(),
        rules: rules
            .iter()
            .map(|(kind, pattern)| SyntaxRule {
                kind: kind.to_string(),
                pattern: pattern.to_string(),
            })
            .collect(),
    }]
}

fn rust_highlighter(rules: &[(&str, &str)]) -> Highlighter {
    let mut h = Highlighter::new(rust_rules(rules));
    h.init("rs".to_string());
    h
}

fn joined(tokens: &[Token]) -> String {
    tokens.iter().map(|t| t.text.as_str()).collect::<Vec<_>>().join("")
}

fn assert_covers(tokens: &[Token], line: &str) {
    let mut at = 0;
    for t in tokens {
        assert_eq!(t.offset, at);
        assert!(!t.text.is_empty());
        at += t.text.chars().count();
    }
    assert_eq!(at, line.chars().count());
    assert_eq!(joined(tokens), line);
}

#[test]
fn new_highlighter_has_the_default_colours() {
    let h = Highlighter::new(Vec::new());
    assert_eq!(h.colors.len(), 24);
    assert_eq!(find_color(&h.colors, "bg"), Some(Color::Reset));
    assert_eq!(find_color(&h.colors, "fg"), Some(Color::White));
    assert_eq!(find_color(&h.colors, "keyword"), Some(Color::Blue));
    assert_eq!(find_color(&h.colors, "typeParameter"), Some(Color::Cyan));
    assert_eq!(find_color(&h.colors, "comment"), Some(Color::DarkGrey));
    assert_eq!(find_color(&h.colors, "string"), Some(Color::Red));
    assert_eq!(find_color(&h.colors, "nothing"), None);
    assert_eq!(h.current_filetype, "");
    assert!(h.tokens.is_empty());
    assert!(h.cache.is_empty());
}

#[test]
fn find_color_takes_the_first_entry_of_a_name() {
    let palette = vec![
        ColorEntry { name: "a".to_string(), color: Color::Red },
        ColorEntry { name: "a".to_string(), color: Color::Blue },
    ];
    assert_eq!(find_color(&palette, "a"), Some(Color::Red));
    assert_eq!(find_color(&Vec::new(), "a"), None);
}

#[test]
fn hash_depends_on_the_bytes() {
    let h = Highlighter::new(Vec::new());
    assert_eq!(h.hash_bytes_default_hasher(b"let x"), h.hash_bytes_default_hasher(b"let x"));
    assert_ne!(h.hash_bytes_default_hasher(b"let x"), h.hash_bytes_default_hasher(b"let y"));
}

#[test]
fn shift_moves_tokens_at_or_after_the_column() {
    let mut h = Highlighter::new(Vec::new());
    h.update_tokens(vec![vec![token("a", 5, None), token("b", 10, None)]]);
    h.shift_line_tokens(0, 6, 1);
    let offsets: Vec<usize> = h.tokens[0].iter().map(|t| t.offset).collect();
    assert_eq!(offsets, vec![5, 11]);
    h.shift_line_tokens(0, 5, 1);
    let offsets: Vec<usize> = h.tokens[0].iter().map(|t| t.offset).collect();
    assert_eq!(offsets, vec![6, 12]);
}

#[test]
fn shift_stops_at_column_zero() {
    let mut h = Highlighter::new(Vec::new());
    h.update_tokens(vec![vec![token("a", 0, None), token("b", 3, None)]]);
    h.shift_line_tokens(0, 0, -1);
    let offsets: Vec<usize> = h.tokens[0].iter().map(|t| t.offset).collect();
    assert_eq!(offsets, vec![0, 2]);
    h.shift_line_tokens(0, 0, -5);
    let offsets: Vec<usize> = h.tokens[0].iter().map(|t| t.offset).collect();
    assert_eq!(offsets, vec![0, 0]);
    h.shift_line_tokens(0, 0, isize::MIN);
    h.shift_line_tokens(7, 0, 1);
    assert_eq!(h.tokens.len(), 1);
}

#[test]
fn shift_stops_at_the_largest_column() {
    let mut h = Highlighter::new(Vec::new());
    h.update_tokens(vec![vec![token("a", usize::MAX - 1, None)]]);
    h.shift_line_tokens(0, 0, 5);
    assert_eq!(h.tokens[0][0].offset, usize::MAX);
    h.shift_line_tokens_by(0, 0, true, usize::MAX);
    assert_eq!(h.tokens[0][0].offset, 0);
}

#[test]
fn shift_and_update_empty_the_cache() {
    let mut h = Highlighter::new(Vec::new());
    h.highlight("abc", 0);
    assert_eq!(h.cache.len(), 1);
    h.shift_line_tokens(0, 0, 1);
    assert!(h.cache.is_empty());
    h.highlight("abc", 0);
    h.update_tokens(Vec::new());
    assert!(h.cache.is_empty());
    h.update_tokens(vec![vec![token("a", 0, None)]]);
    h.highlight("abc", 0);
    h.clear();
    assert!(h.cache.is_empty() && h.tokens.is_empty());
    assert_eq!(h.colors.len(), 24);
}

#[test]
fn get_tokens_copies_a_row() {
    let mut h = Highlighter::new(Vec::new());
    h.update_tokens(vec![vec![], vec![token("x", 1, Some(Color::Red))]]);
    assert_eq!(h.get_tokens(0), Some(vec![]));
    assert_eq!(h.get_tokens(1), Some(vec![token("x", 1, Some(Color::Red))]));
    assert_eq!(h.get_tokens(2), None);
}

#[test]
fn apply_edit_leaves_an_empty_table_alone() {
    let mut h = Highlighter::new(Vec::new());
    h.highlight("abc", 0);
    h.apply_edit(0, 0, 1, 1, 1, 1);
    assert!(h.tokens.is_empty());
    assert_eq!(h.cache.len(), 1);
}

#[test]
fn apply_edit_inserts_empty_rows() {
    let mut h = Highlighter::new(Vec::new());
    h.update_tokens(vec![vec![token("a", 0, None)], vec![token("b", 1, None)]]);
    h.apply_edit(1, 0, 0, 0, 2, 0);
    assert_eq!(h.tokens.len(), 4);
    assert_eq!(h.tokens[0], vec![token("a", 0, None)]);
    assert!(h.tokens[1].is_empty() && h.tokens[2].is_empty());
    assert_eq!(h.tokens[3], vec![token("b", 1, None)]);
    h.apply_edit(9, 0, 0, 0, 1, 0);
    assert_eq!(h.tokens.len(), 4);
}

#[test]
fn apply_edit_joins_rows() {
    let mut h = Highlighter::new(Vec::new());
    h.update_tokens(vec![
        vec![token("ab", 2, None)],
        vec![token("c", 0, None), token("d", 3, None)],
        vec![token("e", 1, None)],
    ]);
    h.apply_edit(1, 0, 1, 0, 0, 0);
    assert_eq!(h.tokens.len(), 2);
    assert_eq!(h.tokens[0], vec![token("ab", 2, None), token("c", 5, None), token("d", 8, None)]);
    assert_eq!(h.tokens[1], vec![token("e", 1, None)]);
    h.apply_edit(0, 0, 1, 0, 0, 0);
    assert_eq!(h.tokens, vec![vec![token("e", 1, None)]]);
    h.apply_edit(5, 0, 3, 0, 0, 0);
    assert_eq!(h.tokens.len(), 1);
}

#[test]
fn apply_edit_shifts_columns() {
    let mut h = Highlighter::new(Vec::new());
    h.update_tokens(vec![vec![token("a", 1, None), token("b", 4, None)]]);
    h.apply_edit(0, 2, 0, 0, 0, 3);
    assert_eq!(h.tokens[0], vec![token("a", 1, None), token("b", 7, None)]);
    h.apply_edit(0, 2, 0, 9, 0, 1);
    assert_eq!(h.tokens[0], vec![token("a", 1, None), token("b", 0, None)]);
}

#[test]
fn sort_is_stable() {
    let tokens = vec![
        token("c", 4, None),
        token("a1", 1, None),
        token("z", 0, None),
        token("a2", 1, None),
        token("c2", 4, None),
    ];
    let texts: Vec<String> = sort_by_offset(&tokens).into_iter().map(|t| t.text).collect();
    assert_eq!(texts, vec!["z", "a1", "a2", "c", "c2"]);
    assert!(sort_by_offset(&Vec::new()).is_empty());
}

#[test]
fn fill_gaps_fills_between_and_around_tokens() {
    let known = vec![token("fn", 6, Some(Color::Blue)), token("let", 2, Some(Color::Red))];
    let (all, runs) = fill_gaps("  let fn x", &known);
    assert_eq!(
        all,
        vec![
            plain("  ", 0),
            token("let", 2, Some(Color::Red)),
            plain(" ", 5),
            token("fn", 6, Some(Color::Blue)),
            plain(" x", 8),
        ]
    );
    assert_eq!(runs, vec![plain("  ", 0), plain(" ", 5), plain(" x", 8)]);
    assert_covers(&all, "  let fn x");
}

#[test]
fn fill_gaps_without_tokens_is_one_plain_run() {
    let (all, runs) = fill_gaps("héllo", &Vec::new());
    assert_eq!(all, vec![plain("héllo", 0)]);
    assert_eq!(runs, all);
    let (all, runs) = fill_gaps("", &Vec::new());
    assert!(all.is_empty() && runs.is_empty());
}

#[test]
fn fill_gaps_keeps_tokens_that_claim_nothing() {
    let known = vec![
        token("abcd", 0, None),
        token("bc", 1, None),
        token("", 5, None),
        token("zz", 9, None),
    ];
    let (all, runs) = fill_gaps("abcdefg", &known);
    assert_eq!(
        all,
        vec![
            token("abcd", 0, None),
            token("bc", 1, None),
            plain("e", 4),
            token("", 5, None),
            plain("fg", 5),
            token("zz", 9, None),
        ]
    );
    assert_eq!(runs, vec![plain("e", 4), plain("fg", 5)]);
}

#[test]
fn fill_gaps_lets_a_token_reach_past_the_line() {
    let known = vec![token("cdefgh", 2, None)];
    let (all, _) = fill_gaps("abcd", &known);
    assert_eq!(all, vec![plain("ab", 0), token("cdefgh", 2, None)]);
}

#[test]
fn utf8_lengths() {
    assert_eq!(utf8_len('a'), 1);
    assert_eq!(utf8_len('\u{7f}'), 1);
    assert_eq!(utf8_len('é'), 2);
    assert_eq!(utf8_len('\u{7ff}'), 2);
    assert_eq!(utf8_len('€'), 3);
    assert_eq!(utf8_len('\u{ffff}'), 3);
    assert_eq!(utf8_len('𝒳'), 4);
}

#[test]
fn byte_offsets_become_character_columns() {
    let chars: Vec<char> = "é€x".chars().collect();
    assert_eq!(char_index_of_byte(&chars, 0), 0);
    assert_eq!(char_index_of_byte(&chars, 2), 1);
    assert_eq!(char_index_of_byte(&chars, 5), 2);
    assert_eq!(char_index_of_byte(&chars, 6), 3);
    assert_eq!(char_index_of_byte(&chars, 60), 3);
    assert_eq!(char_index_of_byte(&chars, 1), 1);
}

#[test]
fn spans_become_tokens() {
    let spans = vec![Some((0, 2)), None, Some((5, 6)), Some((6, 5))];
    let tokens = tokens_from_spans("é€x", &spans, Some(Color::Green));
    assert_eq!(
        tokens,
        vec![
            token("é", 0, Some(Color::Green)),
            token("x", 2, Some(Color::Green)),
            token("", 3, Some(Color::Green)),
        ]
    );
}

#[test]
fn highlight_of_an_empty_line_is_empty() {
    let mut h = rust_highlighter(&[("keyword", r"\b(let)\b")]);
    h.update_tokens(vec![vec![token("stale", 0, None)]]);
    assert!(h.highlight("", 0).is_empty());
    assert!(h.cache.is_empty());
}

#[test]
fn highlight_without_a_rule_set_is_the_whole_line() {
    let mut h = Highlighter::new(Vec::new());
    let tokens = h.highlight("let x = 1;", 3);
    assert_eq!(tokens, vec![plain("let x = 1;", 0)]);
    assert_covers(&tokens, "let x = 1;");
}

#[test]
fn highlight_with_an_empty_rule_set_is_one_plain_run() {
    let mut h = rust_highlighter(&[]);
    let tokens = h.highlight("let x", 0);
    assert_eq!(tokens, vec![plain("let x", 0)]);
}

#[test]
fn highlight_applies_the_rules_and_fills_the_gaps() {
    let mut h = rust_highlighter(&[("keyword", r"\b(let|fn)\b"), ("number", r"([0-9]+)")]);
    let tokens = h.highlight("let foo = 42;", 0);
    assert_eq!(
        tokens,
        vec![
            token("let", 0, Some(Color::Blue)),
            plain(" foo = ", 3),
            token("42", 10, Some(Color::Cyan)),
            plain(";", 12),
        ]
    );
    assert_covers(&tokens, "let foo = 42;");
}

#[test]
fn highlight_counts_columns_in_characters() {
    let mut h = rust_highlighter(&[("keyword", r"\b(let)\b")]);
    let tokens = h.highlight("é€ let ü", 0);
    assert_eq!(tokens, vec![plain("é€ ", 0), token("let", 3, Some(Color::Blue)), plain(" ü", 6)]);
    assert_covers(&tokens, "é€ let ü");
}

#[test]
fn highlight_skips_a_rule_that_does_not_compile() {
    let mut h = rust_highlighter(&[("keyword", r"(let"), ("number", r"([0-9]+)")]);
    let tokens = h.highlight("let 1", 0);
    assert_eq!(tokens, vec![plain("let ", 0), token("1", 4, Some(Color::Cyan))]);
}

#[test]
fn highlight_skips_matches_without_a_first_group() {
    let mut h = rust_highlighter(&[("keyword", r"let"), ("string", r"a|(b)")]);
    let tokens = h.highlight("let ab", 0);
    assert_eq!(tokens, vec![plain("let a", 0), token("b", 5, Some(Color::Red))]);
}

#[test]
fn highlight_of_an_unknown_kind_has_no_colour() {
    let mut h = rust_highlighter(&[("mystery", r"(x)")]);
    let tokens = h.highlight("axb", 0);
    assert_eq!(tokens, vec![plain("a", 0), token("x", 1, None), plain("b", 2)]);
}

#[test]
fn tokens_of_the_service_take_precedence() {
    let mut h = rust_highlighter(&[("keyword", r"\b(let)\b")]);
    h.update_tokens(vec![vec![], vec![token("foo", 4, Some(Color::Green))]]);
    let tokens = h.highlight("let foo", 1);
    assert_eq!(tokens, vec![plain("let ", 0), token("foo", 4, Some(Color::Green))]);
    let other = h.highlight("let bar", 0);
    assert_eq!(other, vec![token("let", 0, Some(Color::Blue)), plain(" bar", 3)]);
}

#[test]
fn highlight_caches_what_it_added() {
    let mut h = rust_highlighter(&[("keyword", r"\b(let)\b")]);
    let first = h.highlight("let x", 0);
    assert_eq!(h.cache.len(), 1);
    let sum = h.hash_bytes_default_hasher("let x".as_bytes());
    assert_eq!(h.cache.get(&sum), Some(&first));
    let again = h.highlight("let x", 0);
    assert_eq!(again, first);
    assert_eq!(h.cache.len(), 1);

    let mut g = rust_highlighter(&[("keyword", r"\b(let)\b")]);
    g.update_tokens(vec![vec![token("x", 4, Some(Color::Green))]]);
    let first = g.highlight("let x", 0);
    assert_eq!(first, vec![plain("let ", 0), token("x", 4, Some(Color::Green))]);
    let sum = g.hash_bytes_default_hasher("let x".as_bytes());
    assert_eq!(g.cache.get(&sum), Some(&vec![plain("let ", 0)]));
    assert_eq!(g.highlight("let x", 0), first);
}

#[test]
fn highlight_is_ordered_whatever_the_tokens() {
    let mut h = Highlighter::new(Vec::new());
    h.update_tokens(vec![vec![
        token("zzz", 9, None),
        token("b", 1, None),
        token("overlap", 0, None),
    ]]);
    let tokens = h.highlight("abc", 0);
    let offsets: Vec<usize> = tokens.iter().map(|t| t.offset).collect();
    let mut sorted = offsets.clone();
    sorted.sort();
    assert_eq!(offsets, sorted);
    let again = h.highlight("abc", 0);
    let offsets: Vec<usize> = again.iter().map(|t| t.offset).collect();
    let mut sorted = offsets.clone();
    sorted.sort();
    assert_eq!(offsets, sorted);
}

#[test]
fn init_chooses_the_rules() {
    let mut h = Highlighter::new(rust_rules(&[("keyword", r"(let)")]));
    assert_eq!(h.regex_tokens("let"), vec![plain("let", 0)]);
    h.init("rs".to_string());
    assert_eq!(h.regex_tokens("let"), vec![token("let", 0, Some(Color::Blue))]);
    h.init("py".to_string());
    assert_eq!(h.regex_tokens("let"), vec![plain("let", 0)]);
}
