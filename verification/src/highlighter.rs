//! The token overlay of a view: tokens supplied per row by the analysis
//! service, the rules and colours of regex highlighting, and a cache of
//! resolved lines keyed by a hash of their content.

use std::collections::hash_map::DefaultHasher;
use std::collections::HashMap;
use std::hash::Hasher;
use vstd::prelude::*;
use vstd::std_specs::hash::*;
use vstd::string::*;

use crate::gapfill::{
    all_match, apart, by_offset, covers, fill_gaps, filled, fits, lemma_apart_fits, matches_line,
    ordered, resolved, sort_by_offset,
};
use crate::text::{from_chars, same_text, to_chars};
use crate::types::{duplicate_tokens, table_views, token_views, Color, Token, TokenView};

verus! {

broadcast use vstd::std_specs::hash::group_hash_axioms;

/// One highlighting rule: matches of `pattern` are tokens of kind `kind`.
#[derive(Clone, Debug)]
pub struct SyntaxRule {
    pub kind: String,
    pub pattern: String,
}

/// The rules of one language, in the order they are applied.
#[derive(Clone, Debug)]
pub struct LanguageRules {
    pub language: String,
    pub rules: Vec<SyntaxRule>,
}

/// A named colour.
#[derive(Clone, Debug)]
pub struct ColorEntry {
    pub name: String,
    pub color: Color,
}

/// The names and colours of `palette`, in order.
pub open spec fn palette_view(palette: Seq<ColorEntry>) -> Seq<(Seq<char>, Color)> {
    palette.map_values(|e: ColorEntry| (e.name@, e.color))
}

/// The colour that `palette` gives `name`: that of the first entry of this
/// name.
pub open spec fn color_of(palette: Seq<(Seq<char>, Color)>, name: Seq<char>) -> Option<Color>
    decreases palette.len(),
{
    if palette.len() == 0 {
        None
    } else if palette[0].0 == name {
        Some(palette[0].1)
    } else {
        color_of(palette.drop_first(), name)
    }
}

/// Looks `name` up in `palette`.
pub fn find_color(palette: &Vec<ColorEntry>, name: &str) -> (color: Option<Color>)
    ensures
        color == color_of(palette_view(palette@), name@),
{
    let mut i: usize = 0;
    let ghost entries = palette_view(palette@);
    assert(entries.subrange(0, palette.len() as int) =~= entries);
    while i < palette.len()
        invariant
            i <= palette.len(),
            entries == palette_view(palette@),
            color_of(entries, name@) == color_of(
                entries.subrange(i as int, palette.len() as int),
                name@,
            ),
        decreases palette.len() - i,
    {
        let ghost rest = entries.subrange(i as int, palette.len() as int);
        assert(rest[0] == (palette@[i as int].name@, palette@[i as int].color));
        assert(rest.drop_first() =~= entries.subrange(i + 1, palette.len() as int));
        if same_text(palette[i].name.as_str(), name) {
            return Some(palette[i].color);
        }
        i = i + 1;
    }
    None
}

/// The colours a new highlighter starts with.
pub open spec fn default_palette() -> Seq<(Seq<char>, Color)> {
    seq![
        ("bg"@, Color::Reset),
        ("fg"@, Color::White),
        ("namespace"@, Color::Blue),
        ("type"@, Color::Magenta),
        ("class"@, Color::Magenta),
        ("enum"@, Color::Magenta),
        ("interface"@, Color::Magenta),
        ("struct"@, Color::Magenta),
        ("typeParameter"@, Color::Cyan),
        ("parameter"@, Color::White),
        ("variable"@, Color::White),
        ("property"@, Color::Yellow),
        ("enumMember"@, Color::Yellow),
        ("event"@, Color::Green),
        ("function"@, Color::Green),
        ("method"@, Color::Green),
        ("macro"@, Color::Cyan),
        ("keyword"@, Color::Blue),
        ("modifier"@, Color::Blue),
        ("operator"@, Color::White),
        ("comment"@, Color::DarkGrey),
        ("string"@, Color::Red),
        ("number"@, Color::Cyan),
        ("regexp"@, Color::Cyan),
    ]
}

/// `offset + delta` kept inside the range of an offset.
pub open spec fn clamped_offset(value: int) -> int {
    if value < 0 {
        0
    } else if value > usize::MAX {
        usize::MAX as int
    } else {
        value
    }
}

/// Where a token at `offset` stands after an edit at `col` that moves what
/// follows by `delta`: tokens before `col` stay, the others move and stop
/// at column 0.
pub open spec fn shifted_offset(offset: int, col: int, delta: int) -> int {
    if offset >= col {
        clamped_offset(offset + delta)
    } else {
        offset
    }
}

/// `tokens` with every offset at or after `col` moved by `delta`.
pub open spec fn shifted(tokens: Seq<TokenView>, col: int, delta: int) -> Seq<TokenView> {
    tokens.map_values(
        |t: TokenView|
            TokenView { text: t.text, offset: shifted_offset(t.offset, col, delta), style: t.style },
    )
}

/// `table` with `count` empty rows inserted before row `at`; a position
/// past the end changes nothing.
pub open spec fn with_empty_rows(table: Seq<Seq<TokenView>>, at: int, count: int) -> Seq<
    Seq<TokenView>,
> {
    if 0 <= at <= table.len() && count >= 0 {
        table.subrange(0, at) + Seq::new(count as nat, |i: int| Seq::<TokenView>::empty())
            + table.subrange(at, table.len() as int)
    } else {
        table
    }
}

/// How far the tokens of a row move when the row is appended to `prev`:
/// past the last token of `prev` and one separating column.
pub open spec fn join_shift(prev: Seq<TokenView>) -> int {
    if prev.len() > 0 {
        clamped_offset(prev.last().offset + prev.last().text.len() + 1)
    } else {
        0
    }
}

/// `table` with row `at` removed and its tokens appended to the row before
/// it; row 0 has no predecessor and is dropped; a missing row changes
/// nothing.
pub open spec fn with_row_joined(table: Seq<Seq<TokenView>>, at: int) -> Seq<Seq<TokenView>> {
    if 0 < at < table.len() {
        table.update(
            at - 1,
            table[at - 1] + shifted(table[at], 0, join_shift(table[at - 1])),
        ).remove(at)
    } else if at == 0 && table.len() > 0 {
        table.remove(0)
    } else {
        table
    }
}

/// `with_row_joined` applied `count` times at row `at`.
pub open spec fn with_rows_joined(table: Seq<Seq<TokenView>>, at: int, count: nat) -> Seq<
    Seq<TokenView>,
>
    decreases count,
{
    if count == 0 {
        table
    } else {
        with_rows_joined(with_row_joined(table, at), at, (count - 1) as nat)
    }
}

/// `table` with the tokens of row `row` shifted at `col` by `delta`.
pub open spec fn with_row_shifted(table: Seq<Seq<TokenView>>, row: int, col: int, delta: int) -> Seq<
    Seq<TokenView>,
> {
    if 0 <= row < table.len() {
        table.update(row, shifted(table[row], col, delta))
    } else {
        table
    }
}

/// What `apply_edit` makes of a token table.
pub open spec fn table_after_edit(
    table: Seq<Seq<TokenView>>,
    start_row: int,
    start_col: int,
    deleted_lines: nat,
    deleted_cols: int,
    inserted_lines: int,
    inserted_cols: int,
) -> Seq<Seq<TokenView>> {
    let grown = with_empty_rows(table, start_row, inserted_lines);
    let joined = with_rows_joined(grown, start_row, deleted_lines);
    if deleted_cols > 0 || inserted_cols > 0 {
        with_row_shifted(joined, start_row, start_col, inserted_cols - deleted_cols)
    } else {
        joined
    }
}

/// Moving the tokens of a row one column right from `col` on and then one
/// column left from `col + 1` on puts every token back, unless one stood at
/// the largest column.
pub proof fn lemma_shift_there_and_back(table: Seq<Seq<TokenView>>, row: int, col: int)
    requires
        0 <= col,
        forall|r: int, k: int|
            0 <= r < table.len() && 0 <= k < table[r].len() ==> 0 <= (#[trigger] table[r][k]).offset
                < usize::MAX,
    ensures
        with_row_shifted(with_row_shifted(table, row, col, 1), row, col + 1, -1) == table,
{
    if 0 <= row < table.len() {
        let there = shifted(table[row], col, 1);
        let back = shifted(there, col + 1, -1);
        assert forall|k: int| 0 <= k < table[row].len() implies back[k] == table[row][k] by {
            assert(there[k].offset == shifted_offset(table[row][k].offset, col, 1));
        }
        assert(back =~= table[row]);
        assert(with_row_shifted(with_row_shifted(table, row, col, 1), row, col + 1, -1)
            =~= table);
    }
}

/// Joining a row that the table does not have changes nothing, however
/// often.
pub proof fn lemma_join_missing_row(table: Seq<Seq<TokenView>>, at: int, count: nat)
    requires
        at >= table.len(),
    ensures
        with_rows_joined(table, at, count) == table,
    decreases count,
{
    if count > 0 {
        lemma_join_missing_row(table, at, (count - 1) as nat);
    }
}

fn shift_offset(offset: usize, col: usize, negative: bool, magnitude: usize) -> (r: usize)
    ensures
        r == shifted_offset(
            offset as int,
            col as int,
            if negative {
                -(magnitude as int)
            } else {
                magnitude as int
            },
        ),
{
    if offset < col {
        offset
    } else if negative {
        if magnitude > offset {
            0
        } else {
            offset - magnitude
        }
    } else if magnitude > usize::MAX - offset {
        usize::MAX
    } else {
        offset + magnitude
    }
}

fn shift_tokens(tokens: &Vec<Token>, col: usize, negative: bool, magnitude: usize) -> (out: Vec<
    Token,
>)
    ensures
        token_views(out@) == shifted(
            token_views(tokens@),
            col as int,
            if negative {
                -(magnitude as int)
            } else {
                magnitude as int
            },
        ),
{
    let ghost delta = if negative {
        -(magnitude as int)
    } else {
        magnitude as int
    };
    let mut out: Vec<Token> = Vec::new();
    let mut i: usize = 0;
    while i < tokens.len()
        invariant
            i <= tokens.len(),
            out.len() == i,
            delta == if negative {
                -(magnitude as int)
            } else {
                magnitude as int
            },
            forall|j: int|
                0 <= j < i ==> out[j]@ == (TokenView {
                    text: tokens[j]@.text,
                    offset: shifted_offset(tokens[j]@.offset, col as int, delta),
                    style: tokens[j]@.style,
                }),
        decreases tokens.len() - i,
    {
        let t = &tokens[i];
        out.push(
            Token {
                text: t.text.clone(),
                offset: shift_offset(t.offset, col, negative, magnitude),
                style: t.style,
            },
        );
        i = i + 1;
    }
    assert(token_views(out@) =~= shifted(token_views(tokens@), col as int, delta));
    out
}

/// The number of bytes that `c` takes in UTF-8.
pub open spec fn utf8_width(c: char) -> int {
    if (c as u32) < 0x80 {
        1
    } else if (c as u32) < 0x800 {
        2
    } else if (c as u32) < 0x10000 {
        3
    } else {
        4
    }
}

/// The number of bytes that `c` takes in UTF-8.
pub fn utf8_len(c: char) -> (w: usize)
    ensures
        w == utf8_width(c),
{
    let v = c as u32;
    if v < 0x80 {
        1
    } else if v < 0x800 {
        2
    } else if v < 0x10000 {
        3
    } else {
        4
    }
}

/// The number of characters of `line` that start before byte `byte` of its
/// UTF-8 encoding: the character column of a byte offset that stands at a
/// character boundary.
pub open spec fn chars_before(line: Seq<char>, byte: int) -> int
    decreases line.len(),
{
    if line.len() == 0 || byte <= 0 {
        0
    } else {
        1 + chars_before(line.drop_first(), byte - utf8_width(line[0]))
    }
}

/// The character column of byte offset `byte`.
pub fn char_index_of_byte(chars: &Vec<char>, byte: usize) -> (k: usize)
    ensures
        k == chars_before(chars@, byte as int),
        k <= chars@.len(),
{
    let mut k: usize = 0;
    let mut left: usize = byte;
    assert(chars@.subrange(0, chars.len() as int) =~= chars@);
    while k < chars.len() && left > 0
        invariant
            k <= chars.len(),
            chars_before(chars@, byte as int) == k + chars_before(
                chars@.subrange(k as int, chars.len() as int),
                left as int,
            ),
        decreases chars.len() - k,
    {
        let ghost rest = chars@.subrange(k as int, chars.len() as int);
        assert(rest[0] == chars@[k as int]);
        assert(rest.drop_first() =~= chars@.subrange(k + 1, chars.len() as int));
        let w = utf8_len(chars[k]);
        if w >= left {
            assert(chars_before(rest.drop_first(), left - w) == 0);
            return k + 1;
        }
        left = left - w;
        k = k + 1;
    }
    k
}

/// The token for the bytes `start..end` of `line`: its text is the
/// characters between the two offsets, its offset a character column.
pub open spec fn span_token(line: Seq<char>, start: int, end: int, style: Option<Color>) -> TokenView {
    let from = chars_before(line, start);
    let to = chars_before(line, end);
    TokenView {
        text: if from <= to <= line.len() {
            line.subrange(from, to)
        } else {
            Seq::empty()
        },
        offset: from,
        style,
    }
}

/// A character column of a byte offset lies inside the line or at its end.
pub proof fn lemma_chars_before_bound(line: Seq<char>, byte: int)
    ensures
        0 <= chars_before(line, byte) <= line.len(),
    decreases line.len(),
{
    if line.len() > 0 && byte > 0 {
        lemma_chars_before_bound(line.drop_first(), byte - utf8_width(line[0]));
    }
}

/// The token of a byte span holds the characters of the line at its
/// columns, whatever the span.
pub proof fn lemma_span_token_matches(line: Seq<char>, start: int, end: int, style: Option<Color>)
    ensures
        0 <= span_token(line, start, end, style).offset,
        span_token(line, start, end, style).end() <= line.len(),
        span_token(line, start, end, style).text == line.subrange(
            span_token(line, start, end, style).offset,
            span_token(line, start, end, style).end(),
        ),
{
    lemma_chars_before_bound(line, start);
    lemma_chars_before_bound(line, end);
    let t = span_token(line, start, end, style);
    assert(t.text =~= line.subrange(t.offset, t.end()));
}

/// The tokens of the spans that are present, in order.
pub open spec fn span_tokens(
    line: Seq<char>,
    spans: Seq<Option<(usize, usize)>>,
    style: Option<Color>,
) -> Seq<TokenView>
    decreases spans.len(),
{
    if spans.len() == 0 {
        Seq::empty()
    } else {
        span_tokens(line, spans.drop_last(), style) + match spans.last() {
            Some(span) => seq![span_token(line, span.0 as int, span.1 as int, style)],
            None => Seq::empty(),
        }
    }
}

/// The tokens of byte spans hold the characters of the line at their
/// columns.
pub proof fn lemma_span_tokens_match(
    line: Seq<char>,
    spans: Seq<Option<(usize, usize)>>,
    style: Option<Color>,
)
    ensures
        all_match(span_tokens(line, spans, style), line),
    decreases spans.len(),
{
    if spans.len() > 0 {
        lemma_span_tokens_match(line, spans.drop_last(), style);
        let front = span_tokens(line, spans.drop_last(), style);
        match spans.last() {
            Some(span) => {
                lemma_span_token_matches(line, span.0 as int, span.1 as int, style);
                let all = front + seq![span_token(line, span.0 as int, span.1 as int, style)];
                assert forall|k: int| 0 <= k < all.len() implies matches_line(
                    #[trigger] all[k],
                    line,
                ) by {
                    if k < front.len() {
                        assert(all[k] == front[k]);
                    }
                }
            },
            None => {
                assert(front + Seq::<TokenView>::empty() =~= front);
            },
        }
    }
}

/// Turns the byte spans of regex matches in `line` into tokens of one style.
pub fn tokens_from_spans(
    line: &str,
    spans: &Vec<Option<(usize, usize)>>,
    style: Option<Color>,
) -> (out: Vec<Token>)
    ensures
        token_views(out@) == span_tokens(line@, spans@, style),
{
    let chars = to_chars(line);
    let mut out: Vec<Token> = Vec::new();
    let mut i: usize = 0;
    assert(spans@.subrange(0, 0) =~= Seq::<Option<(usize, usize)>>::empty());
    while i < spans.len()
        invariant
            i <= spans.len(),
            chars@ == line@,
            token_views(out@) =~= span_tokens(line@, spans@.subrange(0, i as int), style),
        decreases spans.len() - i,
    {
        let ghost next = spans@.subrange(0, i + 1);
        assert(next.drop_last() =~= spans@.subrange(0, i as int));
        assert(next.last() == spans@[i as int]);
        let ghost before = token_views(out@);
        match spans[i] {
            Some((start, end)) => {
                let from = char_index_of_byte(&chars, start);
                let to = char_index_of_byte(&chars, end);
                let text = if from <= to {
                    from_chars(&chars, from, to)
                } else {
                    String::new()
                };
                out.push(Token { text, offset: from, style });
                assert(token_views(out@) =~= before + seq![
                    span_token(line@, start as int, end as int, style),
                ]);
            },
            None => {},
        }
        i = i + 1;
    }
    assert(spans@.subrange(0, i as int) =~= spans@);
    out
}

/// What the regex `pattern` finds in `line`: for each successive
/// non-overlapping match the byte span of its first capture group, absent
/// where the group took no part; nothing at all where `pattern` does not
/// compile.
pub uninterp spec fn regex_group_spans(pattern: Seq<char>, line: Seq<char>) -> Option<
    Seq<Option<(usize, usize)>>,
>;

/// Runs the regex `pattern` over `line`.
///
/// Trusted: `regex::Regex::new` compiles the pattern or returns an error,
/// and `Regex::captures_iter` yields the successive non-overlapping matches,
/// of which `Captures::get(1)` gives the first group with its `start` and
/// `end` byte offsets. The contract only names that result.
#[verifier::external_body]
pub(crate) fn group_spans(pattern: &str, line: &str) -> (found: Option<Vec<Option<(usize, usize)>>>)
    ensures
        match found {
            Some(spans) => regex_group_spans(pattern@, line@) == Some(spans@),
            None => regex_group_spans(pattern@, line@) is None,
        },
{
    match regex::Regex::new(pattern) {
        Ok(re) => Some(
            re.captures_iter(line).map(|c| c.get(1).map(|m| (m.start(), m.end()))).collect(),
        ),
        Err(_) => None,
    }
}

/// The tokens that `rules` find in `line`, rule after rule; a rule whose
/// pattern does not compile finds nothing.
pub open spec fn rule_tokens(
    rules: Seq<SyntaxRule>,
    palette: Seq<(Seq<char>, Color)>,
    line: Seq<char>,
) -> Seq<TokenView>
    decreases rules.len(),
{
    if rules.len() == 0 {
        Seq::empty()
    } else {
        rule_tokens(rules.drop_last(), palette, line) + match regex_group_spans(
            rules.last().pattern@,
            line,
        ) {
            Some(spans) => span_tokens(line, spans, color_of(palette, rules.last().kind@)),
            None => Seq::empty(),
        }
    }
}

/// Whatever the rules find holds the characters of the line at its columns.
pub proof fn lemma_rule_tokens_match(
    rules: Seq<SyntaxRule>,
    palette: Seq<(Seq<char>, Color)>,
    line: Seq<char>,
)
    ensures
        all_match(rule_tokens(rules, palette, line), line),
    decreases rules.len(),
{
    if rules.len() > 0 {
        lemma_rule_tokens_match(rules.drop_last(), palette, line);
        let front = rule_tokens(rules.drop_last(), palette, line);
        match regex_group_spans(rules.last().pattern@, line) {
            Some(spans) => {
                let found = span_tokens(line, spans, color_of(palette, rules.last().kind@));
                lemma_span_tokens_match(line, spans, color_of(palette, rules.last().kind@));
                let all = front + found;
                assert forall|k: int| 0 <= k < all.len() implies matches_line(
                    #[trigger] all[k],
                    line,
                ) by {
                    if k < front.len() {
                        assert(all[k] == front[k]);
                    } else {
                        assert(all[k] == found[k - front.len()]);
                    }
                }
            },
            None => {
                assert(front + Seq::<TokenView>::empty() =~= front);
            },
        }
    }
}

/// The position of the first rule set for `language`, if there is one.
pub open spec fn rule_set_of(sets: Seq<LanguageRules>, language: Seq<char>) -> Option<int>
    decreases sets.len(),
{
    if sets.len() == 0 {
        None
    } else if sets[0].language@ == language {
        Some(0)
    } else {
        match rule_set_of(sets.drop_first(), language) {
            Some(i) => Some(i + 1),
            None => None,
        }
    }
}

/// `line` as one token in the foreground colour of `palette`.
pub open spec fn whole_line(palette: Seq<(Seq<char>, Color)>, line: Seq<char>) -> Seq<TokenView> {
    seq![TokenView { text: line, offset: 0, style: color_of(palette, "fg"@) }]
}

/// The token overlay of one view.
#[derive(Clone, Debug)]
pub struct Highlighter {
    pub current_filetype: String,
    pub rules: Vec<LanguageRules>,
    pub colors: Vec<ColorEntry>,
    /// Tokens of the analysis service, by row.
    pub tokens: Vec<Vec<Token>>,
    /// Resolved lines, by the hash of their content.
    pub cache: HashMap<u64, Vec<Token>>,
}

impl Highlighter {
    /// The tokens of the analysis service, by row.
    pub open spec fn table(&self) -> Seq<Seq<TokenView>> {
        table_views(self.tokens@)
    }

    /// Whether nothing but the token table and the cache may differ
    /// between `self` and `other`.
    pub open spec fn same_setup(&self, other: &Highlighter) -> bool {
        &&& self.current_filetype == other.current_filetype
        &&& self.rules == other.rules
        &&& self.colors == other.colors
    }

    /// A highlighter with the default colours, no tokens and an empty cache.
    pub fn new(rules: Vec<LanguageRules>) -> (h: Self)
        ensures
            h.rules == rules,
            h.current_filetype@.len() == 0,
            palette_view(h.colors@) == default_palette(),
            h.tokens@.len() == 0,
            h.cache@ == Map::<u64, Vec<Token>>::empty(),
    {
        let mut colors: Vec<ColorEntry> = Vec::new();
        colors.push(ColorEntry { name: String::from_str("bg"), color: Color::Reset });
        colors.push(ColorEntry { name: String::from_str("fg"), color: Color::White });
        colors.push(ColorEntry { name: String::from_str("namespace"), color: Color::Blue });
        colors.push(ColorEntry { name: String::from_str("type"), color: Color::Magenta });
        colors.push(ColorEntry { name: String::from_str("class"), color: Color::Magenta });
        colors.push(ColorEntry { name: String::from_str("enum"), color: Color::Magenta });
        colors.push(ColorEntry { name: String::from_str("interface"), color: Color::Magenta });
        colors.push(ColorEntry { name: String::from_str("struct"), color: Color::Magenta });
        colors.push(ColorEntry { name: String::from_str("typeParameter"), color: Color::Cyan });
        colors.push(ColorEntry { name: String::from_str("parameter"), color: Color::White });
        colors.push(ColorEntry { name: String::from_str("variable"), color: Color::White });
        colors.push(ColorEntry { name: String::from_str("property"), color: Color::Yellow });
        colors.push(ColorEntry { name: String::from_str("enumMember"), color: Color::Yellow });
        colors.push(ColorEntry { name: String::from_str("event"), color: Color::Green });
        colors.push(ColorEntry { name: String::from_str("function"), color: Color::Green });
        colors.push(ColorEntry { name: String::from_str("method"), color: Color::Green });
        colors.push(ColorEntry { name: String::from_str("macro"), color: Color::Cyan });
        colors.push(ColorEntry { name: String::from_str("keyword"), color: Color::Blue });
        colors.push(ColorEntry { name: String::from_str("modifier"), color: Color::Blue });
        colors.push(ColorEntry { name: String::from_str("operator"), color: Color::White });
        colors.push(ColorEntry { name: String::from_str("comment"), color: Color::DarkGrey });
        colors.push(ColorEntry { name: String::from_str("string"), color: Color::Red });
        colors.push(ColorEntry { name: String::from_str("number"), color: Color::Cyan });
        colors.push(ColorEntry { name: String::from_str("regexp"), color: Color::Cyan });
        assert(palette_view(colors@) =~= default_palette());
        let current_filetype = String::new();
        Self { current_filetype, rules, colors, tokens: Vec::new(), cache: HashMap::new() }
    }

    /// Chooses the language whose rules apply.
    pub fn init(&mut self, current_filetype: String)
        ensures
            final(self).current_filetype == current_filetype,
            final(self).rules == old(self).rules,
            final(self).colors == old(self).colors,
            final(self).tokens == old(self).tokens,
            final(self).cache == old(self).cache,
    {
        self.current_filetype = current_filetype;
    }

    /// The hash of `data` under which a resolved line is cached.
    pub fn hash_bytes_default_hasher(&self, data: &[u8]) -> (sum: u64)
        ensures
            sum == DefaultHasher::spec_finish(seq![data@]),
    {
        let mut hasher = DefaultHasher::new();
        hasher.write(data);
        assert(hasher@ =~= seq![data@]);
        hasher.finish()
    }

    /// The tokens of the analysis service for `row`; none where the table
    /// has no such row.
    pub open spec fn external(&self, row: int) -> Seq<TokenView> {
        if 0 <= row < self.table().len() {
            self.table()[row]
        } else {
            Seq::empty()
        }
    }

    /// The tokens that regex highlighting proposes for `line`: the matches
    /// of the rules of the current language, or the whole line as one token
    /// where the language has no rule set.
    pub open spec fn candidates(&self, line: Seq<char>) -> Seq<TokenView> {
        match rule_set_of(self.rules@, self.current_filetype@) {
            Some(i) => rule_tokens(self.rules@[i].rules@, palette_view(self.colors@), line),
            None => whole_line(palette_view(self.colors@), line),
        }
    }

    /// The tokens that are known of `line` before gaps are filled: those of
    /// the analysis service where it gave any for `row`, else the regex
    /// candidates.
    pub open spec fn known(&self, line: Seq<char>, row: int) -> Seq<TokenView> {
        if self.external(row).len() > 0 {
            self.external(row)
        } else {
            self.candidates(line)
        }
    }

    /// Whether the cache holds a token list, and not an empty one, under
    /// `sum`.
    pub open spec fn cache_hit(&self, sum: u64) -> bool {
        self.cache@.contains_key(sum) && self.cache@[sum]@.len() > 0
    }

    /// What a cache miss stores for `line`: the resolved tokens without those
    /// of the analysis service.
    pub open spec fn cached_part(&self, line: Seq<char>, row: int) -> Seq<TokenView> {
        if self.external(row).len() > 0 {
            filled(line, self.known(line, row))
        } else {
            resolved(line, self.known(line, row))
        }
    }

    /// The cache with every token list as its model.
    pub open spec fn cache_views(&self) -> Map<u64, Seq<TokenView>> {
        self.cache@.map_values(|tokens: Vec<Token>| token_views(tokens@))
    }

    /// The hash under which a line with the characters `line` is cached.
    pub open spec fn checksum_of(line: Seq<char>) -> u64 {
        DefaultHasher::spec_finish(seq![vstd::utf8::encode_utf8(line)])
    }

    /// What `highlight` returns for `line` at `row` when the cache holds
    /// `cache`.
    pub open spec fn shown(&self, cache: Map<u64, Seq<TokenView>>, line: Seq<char>, row: int) -> Seq<
        TokenView,
    > {
        if line.len() == 0 {
            Seq::empty()
        } else if cache.contains_key(Self::checksum_of(line)) && cache[Self::checksum_of(
            line,
        )].len() > 0 {
            by_offset(self.external(row) + cache[Self::checksum_of(line)])
        } else {
            resolved(line, self.known(line, row))
        }
    }

    /// What the cache holds after `highlight` for `line` at `row` when it
    /// held `cache` before.
    pub open spec fn cache_after(
        &self,
        cache: Map<u64, Seq<TokenView>>,
        line: Seq<char>,
        row: int,
    ) -> Map<u64, Seq<TokenView>> {
        if line.len() == 0 || (cache.contains_key(Self::checksum_of(line)) && cache[Self::checksum_of(
            line,
        )].len() > 0) {
            cache
        } else {
            cache.insert(Self::checksum_of(line), self.cached_part(line, row))
        }
    }

    /// What regex highlighting proposes for a line fits the line as soon as
    /// its tokens, in offset order, stand apart: whatever the rules, only
    /// matches that are empty or overlap stand in the way of covering the
    /// line.
    pub proof fn lemma_candidates_fit(&self, line: Seq<char>)
        requires
            apart(by_offset(self.candidates(line))),
        ensures
            fits(by_offset(self.candidates(line)), line),
    {
        match rule_set_of(self.rules@, self.current_filetype@) {
            Some(i) => {
                lemma_rule_tokens_match(self.rules@[i].rules@, palette_view(self.colors@), line);
            },
            None => {
                let whole = whole_line(palette_view(self.colors@), line);
                assert(whole.drop_last() =~= Seq::<TokenView>::empty());
                assert(by_offset(whole.drop_last()) =~= Seq::<TokenView>::empty());
                assert(Seq::<TokenView>::empty().insert(0, whole.last()) =~= whole);
                assert(by_offset(whole) =~= whole);
                assert(whole[0].text.len() > 0);
                assert(line.subrange(0, line.len() as int) =~= line);
                assert(all_match(whole, line));
            },
        }
        lemma_apart_fits(self.candidates(line), line);
    }

    fn rule_set(&self) -> (found: Option<usize>)
        ensures
            match found {
                Some(i) => rule_set_of(self.rules@, self.current_filetype@) == Some(i as int) && i
                    < self.rules@.len(),
                None => rule_set_of(self.rules@, self.current_filetype@) is None,
            },
    {
        let mut i: usize = 0;
        let ghost sets = self.rules@;
        let ghost language = self.current_filetype@;
        assert(sets.subrange(0, sets.len() as int) =~= sets);
        while i < self.rules.len()
            invariant
                i <= self.rules.len(),
                sets == self.rules@,
                language == self.current_filetype@,
                rule_set_of(sets, language) == match rule_set_of(
                    sets.subrange(i as int, sets.len() as int),
                    language,
                ) {
                    Some(j) => Some(j + i),
                    None => None,
                },
            decreases self.rules.len() - i,
        {
            let ghost rest = sets.subrange(i as int, sets.len() as int);
            assert(rest[0] == sets[i as int]);
            assert(rest.drop_first() =~= sets.subrange(i + 1, sets.len() as int));
            if same_text(self.rules[i].language.as_str(), self.current_filetype.as_str()) {
                return Some(i);
            }
            i = i + 1;
        }
        None
    }

    /// The tokens that regex highlighting proposes for `line`.
    pub fn regex_tokens(&self, line: &str) -> (out: Vec<Token>)
        ensures
            token_views(out@) == self.candidates(line@),
    {
        let mut out: Vec<Token> = Vec::new();
        match self.rule_set() {
            Some(set) => {
                let rules = &self.rules[set].rules;
                let mut i: usize = 0;
                assert(rules@.subrange(0, 0) =~= Seq::<SyntaxRule>::empty());
                while i < rules.len()
                    invariant
                        i <= rules.len(),
                        token_views(out@) =~= rule_tokens(
                            rules@.subrange(0, i as int),
                            palette_view(self.colors@),
                            line@,
                        ),
                    decreases rules.len() - i,
                {
                    let ghost next = rules@.subrange(0, i + 1);
                    assert(next.drop_last() =~= rules@.subrange(0, i as int));
                    assert(next.last() == rules@[i as int]);
                    let ghost before = token_views(out@);
                    let rule = &rules[i];
                    let style = find_color(&self.colors, rule.kind.as_str());
                    match group_spans(rule.pattern.as_str(), line) {
                        Some(spans) => {
                            let mut found = tokens_from_spans(line, &spans, style);
                            let ghost added = token_views(found@);
                            out.append(&mut found);
                            assert(token_views(out@) =~= before + added);
                        },
                        None => {},
                    }
                    i = i + 1;
                }
                assert(rules@.subrange(0, i as int) =~= rules@);
            },
            None => {
                let style = find_color(&self.colors, "fg");
                out.push(Token { text: String::from_str(line), offset: 0, style });
                assert(token_views(out@) =~= whole_line(palette_view(self.colors@), line@));
            },
        }
        out
    }

    /// The display tokens of `line`, which stands at `row`.
    ///
    /// An empty line has none. A line whose hash is in the cache gets the
    /// tokens of the analysis service for `row` together with the cached
    /// ones, in offset order. Any other line is resolved afresh: its known
    /// tokens in offset order, the columns that none of them claims filled
    /// with plain runs; what was added to the tokens of the analysis service
    /// is cached under the hash of the line.
    ///
    /// The tokens come in offset order in every case. On a miss they cover
    /// the line without gap or overlap wherever the known tokens fit it.
    pub fn highlight(&mut self, line: &str, row: usize) -> (out: Vec<Token>)
        ensures
            final(self).same_setup(old(self)),
            final(self).tokens == old(self).tokens,
            token_views(out@) == old(self).shown(old(self).cache_views(), line@, row as int),
            final(self).cache_views() == old(self).cache_after(
                old(self).cache_views(),
                line@,
                row as int,
            ),
            ordered(token_views(out@)),
            !old(self).cache_hit(Self::checksum_of(line@)) && fits(
                by_offset(old(self).known(line@, row as int)),
                line@,
            ) ==> covers(token_views(out@), line@),
    {
        if line.unicode_len() == 0 {
            return Vec::new();
        }
        let mut external: Vec<Token> = if row < self.tokens.len() {
            duplicate_tokens(&self.tokens[row])
        } else {
            Vec::new()
        };
        assert(token_views(external@) =~= self.external(row as int));
        let sum = self.hash_bytes_default_hasher(line.as_bytes());
        match self.cache.get(&sum) {
            Some(cached) => {
                if cached.len() > 0 {
                    let mut merged = duplicate_tokens(cached);
                    let ghost tail = token_views(merged@);
                    let ghost head = token_views(external@);
                    external.append(&mut merged);
                    assert(token_views(external@) =~= head + tail);
                    return sort_by_offset(&external);
                }
            },
            None => {},
        }
        let from_service = external.len() > 0;
        let known = if from_service {
            external
        } else {
            self.regex_tokens(line)
        };
        let (all, runs) = fill_gaps(line, &known);
        let part = if from_service {
            runs
        } else {
            duplicate_tokens(&all)
        };
        let ghost stored = token_views(part@);
        let _ = self.cache.insert(sum, part);
        assert(self.cache_views() =~= old(self).cache_views().insert(sum, stored));
        all
    }

    /// Moves the tokens of `row` that start at or after `col` by `width`
    /// columns, not below column 0, and empties the cache.
    pub fn shift_line_tokens(&mut self, row: usize, col: usize, width: isize)
        ensures
            final(self).table() == with_row_shifted(
                old(self).table(),
                row as int,
                col as int,
                width as int,
            ),
            final(self).cache@ == Map::<u64, Vec<Token>>::empty(),
            final(self).same_setup(old(self)),
    {
        if row < self.tokens.len() {
            let negative = width < 0;
            let magnitude: usize = if width >= 0 {
                width as usize
            } else {
                (-(width + 1)) as usize + 1
            };
            let moved = shift_tokens(&self.tokens[row], col, negative, magnitude);
            self.tokens.set(row, moved);
            assert(self.table() =~= with_row_shifted(
                old(self).table(),
                row as int,
                col as int,
                width as int,
            ));
        }
        self.cache.clear();
    }

    /// Moves the tokens of `row` that start at or after `col` by
    /// `magnitude` columns, to the left if `negative`, and empties the
    /// cache.
    pub fn shift_line_tokens_by(&mut self, row: usize, col: usize, negative: bool, magnitude: usize)
        ensures
            final(self).table() == with_row_shifted(
                old(self).table(),
                row as int,
                col as int,
                if negative {
                    -(magnitude as int)
                } else {
                    magnitude as int
                },
            ),
            final(self).cache@ == Map::<u64, Vec<Token>>::empty(),
            final(self).same_setup(old(self)),
    {
        if row < self.tokens.len() {
            let moved = shift_tokens(&self.tokens[row], col, negative, magnitude);
            self.tokens.set(row, moved);
            assert(self.table() =~= with_row_shifted(
                old(self).table(),
                row as int,
                col as int,
                if negative {
                    -(magnitude as int)
                } else {
                    magnitude as int
                },
            ));
        }
        self.cache.clear();
    }

    /// Adapts the token table to an edit at (`start_row`, `start_col`):
    /// `inserted_lines` empty rows go in before `start_row`; then, once per
    /// deleted line, row `start_row` is joined onto the row before it; then
    /// the tokens of `start_row` from `start_col` on move by the difference
    /// of inserted and deleted columns. The cache is emptied. An empty table
    /// is left alone, cache included.
    pub fn apply_edit(
        &mut self,
        start_row: usize,
        start_col: usize,
        deleted_lines: usize,
        deleted_cols: usize,
        inserted_lines: usize,
        inserted_cols: usize,
    )
        ensures
            final(self).same_setup(old(self)),
            old(self).table().len() == 0 ==> {
                &&& final(self).tokens == old(self).tokens
                &&& final(self).cache@ == old(self).cache@
            },
            old(self).table().len() > 0 ==> final(self).table() == table_after_edit(
                old(self).table(),
                start_row as int,
                start_col as int,
                deleted_lines as nat,
                deleted_cols as int,
                inserted_lines as int,
                inserted_cols as int,
            ) && final(self).cache@ == Map::<u64, Vec<Token>>::empty(),
    {
        if self.tokens.len() == 0 {
            return ;
        }
        let ghost table0 = self.table();
        if start_row <= self.tokens.len() {
            let mut i: usize = 0;
            assert(self.table() =~= with_empty_rows(table0, start_row as int, 0));
            while i < inserted_lines
                invariant
                    i <= inserted_lines,
                    start_row <= table0.len(),
                    self.tokens@.len() == table0.len() + i,
                    self.same_setup(old(self)),
                    self.cache@ == old(self).cache@,
                    self.table() == with_empty_rows(table0, start_row as int, i as int),
                decreases inserted_lines - i,
            {
                let ghost before = self.table();
                let empty: Vec<Token> = Vec::new();
                assert(token_views(empty@) =~= Seq::<TokenView>::empty());
                self.tokens.insert(start_row, empty);
                i = i + 1;
                assert(self.table() =~= before.insert(
                    start_row as int,
                    Seq::<TokenView>::empty(),
                ));
                assert(before.insert(start_row as int, Seq::<TokenView>::empty())
                    =~= with_empty_rows(table0, start_row as int, i as int));
            }
        }
        let ghost grown = self.table();
        let mut i: usize = 0;
        while i < deleted_lines && start_row < self.tokens.len()
            invariant
                i <= deleted_lines,
                self.same_setup(old(self)),
                self.cache@ == old(self).cache@,
                with_rows_joined(grown, start_row as int, deleted_lines as nat) == with_rows_joined(
                    self.table(),
                    start_row as int,
                    (deleted_lines - i) as nat,
                ),
            decreases deleted_lines - i,
        {
            let ghost before = self.table();
            let row = self.tokens.remove(start_row);
            if start_row > 0 {
                let prev = &self.tokens[start_row - 1];
                let shift: usize = if prev.len() > 0 {
                    let last = &prev[prev.len() - 1];
                    let len = last.text.as_str().unicode_len();
                    if len >= usize::MAX - last.offset {
                        usize::MAX
                    } else {
                        last.offset + len + 1
                    }
                } else {
                    0
                };
                assert(before[start_row - 1] == token_views(prev@));
                if prev.len() > 0 {
                    assert(token_views(prev@).last() == prev@[prev.len() - 1]@);
                }
                assert(shift == join_shift(before[start_row - 1]));
                let mut merged = duplicate_tokens(prev);
                let mut moved = shift_tokens(&row, 0, false, shift);
                let ghost head = token_views(merged@);
                let ghost tail = token_views(moved@);
                merged.append(&mut moved);
                assert(token_views(merged@) =~= head + tail);
                self.tokens.set(start_row - 1, merged);
            }
            assert(self.table() =~= with_row_joined(before, start_row as int));
            i = i + 1;
        }
        proof {
            if i < deleted_lines {
                lemma_join_missing_row(self.table(), start_row as int, (deleted_lines - i) as nat);
            }
        }
        let ghost joined = self.table();
        assert(joined == with_rows_joined(grown, start_row as int, deleted_lines as nat));
        if deleted_cols > 0 || inserted_cols > 0 {
            if deleted_cols > inserted_cols {
                self.shift_line_tokens_by(start_row, start_col, true, deleted_cols - inserted_cols);
            } else {
                self.shift_line_tokens_by(start_row, start_col, false, inserted_cols - deleted_cols);
            }
        }
        self.cache.clear();
    }

    /// The tokens of the analysis service for `row`, if the table has
    /// such a row.
    pub fn get_tokens(&self, row: usize) -> (tokens: Option<Vec<Token>>)
        ensures
            match tokens {
                Some(t) => row < self.table().len() && token_views(t@) == self.table()[row as int],
                None => row >= self.table().len(),
            },
    {
        if row < self.tokens.len() {
            Some(duplicate_tokens(&self.tokens[row]))
        } else {
            None
        }
    }

    /// Forgets all tokens and the cache: what they say of colours no longer
    /// holds once the theme has changed.
    pub fn clear(&mut self)
        ensures
            final(self).tokens@.len() == 0,
            final(self).cache@ == Map::<u64, Vec<Token>>::empty(),
            final(self).same_setup(old(self)),
    {
        self.tokens = Vec::new();
        self.cache.clear();
    }

    /// Replaces the whole token table and empties the cache.
    pub fn update_tokens(&mut self, tokens: Vec<Vec<Token>>)
        ensures
            final(self).tokens == tokens,
            final(self).cache@ == Map::<u64, Vec<Token>>::empty(),
            final(self).same_setup(old(self)),
    {
        self.tokens = tokens;
        self.cache.clear();
    }
}

} // verus!
