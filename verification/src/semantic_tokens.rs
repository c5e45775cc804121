//! Decoding the semantic tokens of a language server: a flat array of
//! integers in groups of five, each group placed relative to the one before
//! it, with columns counted in UTF-16 code units.

use vstd::prelude::*;
use vstd::string::*;
use vstd::utf8::*;

use crate::highlighter::{
    char_index_of_byte, color_of, find_color, palette_view, span_token, utf8_len, utf8_width,
    ColorEntry,
};
use crate::text::{from_chars, push_char, to_chars};
use crate::types::{table_views, token_views, Color, Token, TokenView};

verus! {

/// The number of UTF-16 code units that `c` takes.
pub open spec fn utf16_width(c: char) -> int {
    if (c as u32) >= 0x10000 {
        2
    } else {
        1
    }
}

/// The number of bytes that `line` takes in UTF-8.
pub open spec fn utf8_size(line: Seq<char>) -> int
    decreases line.len(),
{
    if line.len() == 0 {
        0
    } else {
        utf8_width(line[0]) + utf8_size(line.drop_first())
    }
}

/// The byte offset in `line` of the character at UTF-16 column `col`: the
/// bytes of the characters before it. A column that is no character's, be
/// it inside a character or past the end, gives the size of the line.
pub open spec fn utf16_byte_index(line: Seq<char>, col: int) -> int
    decreases line.len(),
{
    if line.len() == 0 || col == 0 {
        0
    } else {
        utf8_width(line[0]) + utf16_byte_index(line.drop_first(), col - utf16_width(line[0]))
    }
}

/// The size of a line is not negative.
pub proof fn lemma_utf8_size_bound(line: Seq<char>)
    ensures
        0 <= utf8_size(line),
    decreases line.len(),
{
    if line.len() > 0 {
        lemma_utf8_size_bound(line.drop_first());
    }
}

/// The size of a line is the length of its encoding.
pub proof fn lemma_utf8_size_is_encoded_len(line: Seq<char>)
    ensures
        utf8_size(line) == encode_utf8(line).len(),
    decreases line.len(),
{
    if line.len() > 0 {
        let c = line[0];
        char_is_scalar(c);
        lemma_utf8_size_is_encoded_len(line.drop_first());
        assert(encode_scalar(c as u32).len() == utf8_width(c));
    }
}

/// A column before the first one is no character's.
pub proof fn lemma_utf16_byte_index_missed(line: Seq<char>, col: int)
    requires
        col < 0,
    ensures
        utf16_byte_index(line, col) == utf8_size(line),
    decreases line.len(),
{
    if line.len() > 0 {
        lemma_utf16_byte_index_missed(line.drop_first(), col - utf16_width(line[0]));
    }
}

/// The byte offset in `s` of the character at UTF-16 column `utf16_index`.
pub fn utf16_to_byte_index(s: &str, utf16_index: usize) -> (byte: usize)
    ensures
        byte == utf16_byte_index(s@, utf16_index as int),
{
    let chars = to_chars(s);
    let total = s.as_bytes().len();
    proof {
        lemma_utf8_size_is_encoded_len(s@);
        assert(chars@.subrange(0, chars.len() as int) =~= chars@);
    }
    let mut left: usize = utf16_index;
    let mut byte: usize = 0;
    let mut i: usize = 0;
    while i < chars.len()
        invariant
            i <= chars.len(),
            chars@ == s@,
            total == utf8_size(chars@),
            byte + utf8_size(chars@.subrange(i as int, chars.len() as int)) == total,
            utf16_byte_index(chars@, utf16_index as int) == byte + utf16_byte_index(
                chars@.subrange(i as int, chars.len() as int),
                left as int,
            ),
        decreases chars.len() - i,
    {
        let ghost rest = chars@.subrange(i as int, chars.len() as int);
        proof {
            assert(rest[0] == chars@[i as int]);
            assert(rest.drop_first() =~= chars@.subrange(i + 1, chars.len() as int));
            lemma_utf8_size_bound(rest.drop_first());
        }
        if left == 0 {
            return byte;
        }
        let c = chars[i];
        let units: usize = if c as u32 >= 0x10000 {
            2
        } else {
            1
        };
        if units > left {
            // The column lies inside this character: it is no character's.
            proof {
                lemma_utf16_byte_index_missed(rest.drop_first(), left - units);
            }
            return total;
        }
        left = left - units;
        byte = byte + utf8_len(c);
        i = i + 1;
    }
    proof {
        assert(chars@.subrange(i as int, chars.len() as int) =~= Seq::<char>::empty());
    }
    byte
}

/// Whether bit `bit` of `mask` is set.
pub open spec fn bit_set(mask: u32, bit: u32) -> bool {
    bit < 32 && (mask >> bit) & 1u32 == 1u32
}

/// The names of the modifiers whose bits are set in `mask`, from bit `from`
/// on, in the order of the legend.
pub open spec fn active_modifiers(modifiers: Seq<String>, mask: u32, from: int) -> Seq<Seq<char>>
    decreases modifiers.len() - from,
{
    if from < 0 || from >= modifiers.len() || from >= 32 {
        Seq::empty()
    } else {
        (if bit_set(mask, from as u32) {
            seq![modifiers[from]@]
        } else {
            Seq::empty()
        }) + active_modifiers(modifiers, mask, from + 1)
    }
}

/// `parts` joined by dots.
pub open spec fn dotted(parts: Seq<Seq<char>>) -> Seq<char>
    decreases parts.len(),
{
    if parts.len() == 0 {
        Seq::empty()
    } else if parts.len() == 1 {
        parts[0]
    } else {
        dotted(parts.drop_last()) + seq!['.'] + parts.last()
    }
}

/// The colour of a token of type `kind` with the modifiers `mods`: that of
/// `kind.mods` where the token has modifiers and the palette has such an
/// entry, else that of `kind`.
pub open spec fn token_style(palette: Seq<(Seq<char>, Color)>, kind: Seq<char>, mods: Seq<Seq<char>>) -> Option<
    Color,
> {
    if mods.len() > 0 && color_of(palette, kind + seq!['.'] + dotted(mods)) is Some {
        color_of(palette, kind + seq!['.'] + dotted(mods))
    } else {
        color_of(palette, kind)
    }
}

/// Resolves the colour of a token from its type and modifier bits.
pub fn resolve_style(palette: &Vec<ColorEntry>, kind: &str, modifiers: &Vec<String>, mask: u32) -> (style:
    Option<Color>)
    ensures
        style == token_style(palette_view(palette@), kind@, active_modifiers(modifiers@, mask, 0)),
{
    let mut key = String::from_str(kind);
    push_char(&mut key, '.');
    let mut bit: usize = 0;
    let mut found: usize = 0;
    let ghost mut mods: Seq<Seq<char>> = Seq::empty();
    let limit: usize = if modifiers.len() < 32 {
        modifiers.len()
    } else {
        32
    };
    while bit < limit
        invariant
            bit <= limit,
            limit <= 32,
            limit <= modifiers.len(),
            limit == 32 || limit == modifiers.len(),
            found == mods.len(),
            found <= bit,
            active_modifiers(modifiers@, mask, 0) == mods + active_modifiers(
                modifiers@,
                mask,
                bit as int,
            ),
            key@ == kind@ + seq!['.'] + dotted(mods),
        decreases limit - bit,
    {
        if (mask >> (bit as u32)) & 1u32 == 1u32 {
            let ghost before = mods;
            if found > 0 {
                push_char(&mut key, '.');
            }
            key.append(modifiers[bit].as_str());
            proof {
                mods = mods.push(modifiers@[bit as int]@);
                assert(mods.drop_last() =~= before);
                assert(key@ =~= kind@ + seq!['.'] + dotted(mods));
                assert(mods + active_modifiers(modifiers@, mask, bit + 1) =~= before
                    + active_modifiers(modifiers@, mask, bit as int));
            }
            found = found + 1;
        }
        bit = bit + 1;
    }
    assert(active_modifiers(modifiers@, mask, 0) =~= mods);
    if found > 0 {
        match find_color(palette, key.as_str()) {
            Some(color) => Some(color),
            None => find_color(palette, kind),
        }
    } else {
        find_color(palette, kind)
    }
}

/// The line of the group at `index`, given the line of the group before.
pub open spec fn group_line(data: Seq<i32>, index: int, prev_line: int) -> int {
    prev_line + data[index]
}

/// The UTF-16 start column of the group at `index`: relative to the start
/// of the group before it on the same line, absolute on a new line.
pub open spec fn group_start(data: Seq<i32>, index: int, prev_start: int) -> int {
    if data[index] != 0 {
        data[index + 1] as int
    } else {
        prev_start + data[index + 1]
    }
}

/// Whether the group at `index` can be placed: none of its five numbers is
/// negative, and its line and columns are within the range of an index.
pub open spec fn well_formed(data: Seq<i32>, index: int, prev_line: int, prev_start: int) -> bool {
    &&& data[index] >= 0
    &&& data[index + 1] >= 0
    &&& data[index + 2] >= 0
    &&& data[index + 3] >= 0
    &&& data[index + 4] >= 0
    &&& group_line(data, index, prev_line) <= usize::MAX
    &&& group_start(data, index, prev_start) + data[index + 2] <= usize::MAX
}

/// The token of the group at `index`, which stands in `line`.
pub open spec fn group_token(
    data: Seq<i32>,
    index: int,
    start: int,
    line: Seq<char>,
    types: Seq<String>,
    modifiers: Seq<String>,
    palette: Seq<(Seq<char>, Color)>,
) -> TokenView {
    span_token(
        line,
        utf16_byte_index(line, start),
        utf16_byte_index(line, start + data[index + 2]),
        token_style(
            palette,
            types[data[index + 3] as int]@,
            active_modifiers(modifiers, data[index + 4] as u32, 0),
        ),
    )
}

/// The token table after the groups of `data` from `index` on have been
/// decoded into `table`. A group that is not well formed is dropped and
/// places nothing; a well-formed group moves the position on, and adds its
/// token to its row unless the buffer has no such line or the legend no
/// such type.
pub open spec fn decoded_from(
    data: Seq<i32>,
    index: int,
    prev_line: int,
    prev_start: int,
    table: Seq<Seq<TokenView>>,
    rows: Seq<Seq<char>>,
    types: Seq<String>,
    modifiers: Seq<String>,
    palette: Seq<(Seq<char>, Color)>,
) -> Seq<Seq<TokenView>>
    decreases data.len() - index,
{
    if index < 0 || index + 4 >= data.len() {
        table
    } else if !well_formed(data, index, prev_line, prev_start) {
        decoded_from(
            data,
            index + 5,
            prev_line,
            prev_start,
            table,
            rows,
            types,
            modifiers,
            palette,
        )
    } else {
        let line = group_line(data, index, prev_line);
        let start = group_start(data, index, prev_start);
        decoded_from(
            data,
            index + 5,
            line,
            start,
            if line < rows.len() && line < table.len() && data[index + 3] < types.len() {
                table.update(
                    line,
                    table[line].push(
                        group_token(data, index, start, rows[line], types, modifiers, palette),
                    ),
                )
            } else {
                table
            },
            rows,
            types,
            modifiers,
            palette,
        )
    }
}

/// The token table that `data` encodes for a buffer of the lines `rows`.
pub open spec fn decoded(
    data: Seq<i32>,
    rows: Seq<Seq<char>>,
    types: Seq<String>,
    modifiers: Seq<String>,
    palette: Seq<(Seq<char>, Color)>,
) -> Seq<Seq<TokenView>> {
    decoded_from(
        data,
        0,
        0,
        0,
        Seq::new(rows.len(), |i: int| Seq::<TokenView>::empty()),
        rows,
        types,
        modifiers,
        palette,
    )
}

/// Decodes the semantic tokens `data` of a buffer with the lines `lines`
/// into one token list per line.
pub fn decode_tokens(
    data: &Vec<i32>,
    lines: &Vec<String>,
    types: &Vec<String>,
    modifiers: &Vec<String>,
    palette: &Vec<ColorEntry>,
) -> (table: Vec<Vec<Token>>)
    ensures
        table_views(table@) == decoded(
            data@,
            Seq::new(lines@.len(), |i: int| lines@[i]@),
            types@,
            modifiers@,
            palette_view(palette@),
        ),
{
    let ghost rows = Seq::new(lines@.len(), |i: int| lines@[i]@);
    let mut table: Vec<Vec<Token>> = Vec::new();
    let mut r: usize = 0;
    while r < lines.len()
        invariant
            r <= lines.len(),
            table@.len() == r,
            forall|i: int| 0 <= i < r ==> table@[i]@.len() == 0,
        decreases lines.len() - r,
    {
        table.push(Vec::new());
        r = r + 1;
    }
    assert forall|i: int| 0 <= i < table@.len() implies token_views(table@[i]@)
        == Seq::<TokenView>::empty() by {
        assert(token_views(table@[i]@) =~= Seq::<TokenView>::empty());
    }
    assert(table_views(table@) =~= Seq::new(rows.len(), |i: int| Seq::<TokenView>::empty()));
    let mut index: usize = 0;
    let mut prev_line: usize = 0;
    let mut prev_start: usize = 0;
    while data.len() >= 5 && index <= data.len() - 5
        invariant
            rows == Seq::new(lines@.len(), |i: int| lines@[i]@),
            table@.len() == lines@.len(),
            decoded(data@, rows, types@, modifiers@, palette_view(palette@)) == decoded_from(
                data@,
                index as int,
                prev_line as int,
                prev_start as int,
                table_views(table@),
                rows,
                types@,
                modifiers@,
                palette_view(palette@),
            ),
        decreases data.len() - index,
    {
        let delta_line = data[index];
        let delta_start = data[index + 1];
        let length = data[index + 2];
        let kind = data[index + 3];
        let mask = data[index + 4];
        let ghost before = table_views(table@);
        let shaped = delta_line >= 0 && delta_start >= 0 && length >= 0 && kind >= 0 && mask >= 0;
        if shaped && delta_line as usize <= usize::MAX - prev_line {
            let line = prev_line + delta_line as usize;
            let base: usize = if delta_line != 0 {
                0
            } else {
                prev_start
            };
            if delta_start as usize <= usize::MAX - base && length as usize <= usize::MAX - (base
                + delta_start as usize) {
                let start = base + delta_start as usize;
                assert(well_formed(data@, index as int, prev_line as int, prev_start as int));
                assert(line == group_line(data@, index as int, prev_line as int));
                assert(start == group_start(data@, index as int, prev_start as int));
                if line < lines.len() && (kind as usize) < types.len() {
                    let text = lines[line].as_str();
                    let from = utf16_to_byte_index(text, start);
                    let to = utf16_to_byte_index(text, start + length as usize);
                    let style = resolve_style(
                        palette,
                        types[kind as usize].as_str(),
                        modifiers,
                        mask as u32,
                    );
                    let token = byte_span_token(text, from, to, style);
                    assert(token@ == group_token(
                        data@,
                        index as int,
                        start as int,
                        rows[line as int],
                        types@,
                        modifiers@,
                        palette_view(palette@),
                    ));
                    let ghost old_row = table@[line as int]@;
                    let ghost old_table = table@;
                    let ghost pushed = token@;
                    let row = &mut table[line];
                    row.push(token);
                    assert(table@[line as int]@ == old_row.push(table@[line as int]@.last()));
                    assert(token_views(table@[line as int]@) =~= before[line as int].push(pushed));
                    assert forall|i: int| 0 <= i < table@.len() && i != line implies table@[i]
                        == old_table[i] by {}
                    assert(table_views(table@) =~= before.update(
                        line as int,
                        before[line as int].push(pushed),
                    ));
                }
                prev_line = line;
                prev_start = start;
            }
        }
        index = index + 5;
    }
    table
}

/// The token for the bytes `start..end` of `line`.
pub fn byte_span_token(line: &str, start: usize, end: usize, style: Option<Color>) -> (token: Token)
    ensures
        token@ == span_token(line@, start as int, end as int, style),
{
    let chars = to_chars(line);
    let from = char_index_of_byte(&chars, start);
    let to = char_index_of_byte(&chars, end);
    let text = if from <= to {
        from_chars(&chars, from, to)
    } else {
        String::new()
    };
    Token { text, offset: from, style }
}

} // verus!
