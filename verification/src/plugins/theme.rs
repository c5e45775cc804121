//! Colour themes: one optional hex colour per token kind.

#![allow(non_snake_case)]

use vstd::prelude::*;
use vstd::string::*;

use crate::highlighter::ColorEntry;
use crate::text::to_chars;
use crate::types::Color;

verus! {

/// The value of a hexadecimal digit.
pub open spec fn hex_digit(c: char) -> Option<int> {
    if '0' <= c <= '9' {
        Some(c as int - '0' as int)
    } else if 'a' <= c <= 'f' {
        Some(c as int - 'a' as int + 10)
    } else if 'A' <= c <= 'F' {
        Some(c as int - 'A' as int + 10)
    } else {
        None
    }
}

/// The byte that two characters denote in base 16: two digits, or a plus
/// sign and one digit.
pub open spec fn hex_pair(a: char, b: char) -> Option<int> {
    match (hex_digit(a), hex_digit(b)) {
        (Some(x), Some(y)) => Some(16 * x + y),
        (None, Some(y)) => if a == '+' {
            Some(y)
        } else {
            None
        },
        _ => None,
    }
}

/// The number of `#` characters at the start of `hex`.
pub open spec fn leading_hashes(hex: Seq<char>) -> int
    decreases hex.len(),
{
    if hex.len() == 0 || hex[0] != '#' {
        0
    } else {
        1 + leading_hashes(hex.drop_first())
    }
}

/// The colour that `hex` denotes when every pair of characters must be
/// valid: the first six characters behind the leading `#`s, as red, green
/// and blue.
pub open spec fn strict_rgb(hex: Seq<char>) -> Option<(u8, u8, u8)> {
    let at = leading_hashes(hex);
    if hex.len() - at >= 6 {
        match (
            hex_pair(hex[at], hex[at + 1]),
            hex_pair(hex[at + 2], hex[at + 3]),
            hex_pair(hex[at + 4], hex[at + 5]),
        ) {
            (Some(r), Some(g), Some(b)) => Some((r as u8, g as u8, b as u8)),
            _ => None,
        }
    } else {
        None
    }
}

/// A component that is not valid counts as 0.
pub open spec fn lenient(pair: Option<int>) -> u8 {
    match pair {
        Some(v) => v as u8,
        None => 0,
    }
}

/// The colour that `hex` denotes when a pair that is not valid counts as 0;
/// none where fewer than six characters follow the leading `#`s.
pub open spec fn lenient_rgb(hex: Seq<char>) -> Option<Color> {
    let at = leading_hashes(hex);
    if hex.len() - at >= 6 {
        Some(
            Color::Rgb {
                r: lenient(hex_pair(hex[at], hex[at + 1])),
                g: lenient(hex_pair(hex[at + 2], hex[at + 3])),
                b: lenient(hex_pair(hex[at + 4], hex[at + 5])),
            },
        )
    } else {
        None
    }
}

fn digit(c: char) -> (d: Option<u8>)
    ensures
        match d {
            Some(v) => hex_digit(c) == Some(v as int) && v < 16,
            None => hex_digit(c) is None,
        },
{
    if '0' <= c && c <= '9' {
        Some((c as u32 - '0' as u32) as u8)
    } else if 'a' <= c && c <= 'f' {
        Some((c as u32 - 'a' as u32 + 10) as u8)
    } else if 'A' <= c && c <= 'F' {
        Some((c as u32 - 'A' as u32 + 10) as u8)
    } else {
        None
    }
}

fn pair(a: char, b: char) -> (p: Option<u8>)
    ensures
        match p {
            Some(v) => hex_pair(a, b) == Some(v as int),
            None => hex_pair(a, b) is None,
        },
{
    match (digit(a), digit(b)) {
        (Some(x), Some(y)) => Some(16 * x + y),
        (None, Some(y)) => if a == '+' {
            Some(y)
        } else {
            None
        },
        _ => None,
    }
}

fn hashes(chars: &Vec<char>) -> (at: usize)
    ensures
        at == leading_hashes(chars@),
        at <= chars@.len(),
{
    let mut at: usize = 0;
    assert(chars@.subrange(0, chars.len() as int) =~= chars@);
    while at < chars.len() && chars[at] == '#'
        invariant
            at <= chars.len(),
            leading_hashes(chars@) == at + leading_hashes(
                chars@.subrange(at as int, chars.len() as int),
            ),
        decreases chars.len() - at,
    {
        let ghost rest = chars@.subrange(at as int, chars.len() as int);
        assert(rest[0] == chars@[at as int]);
        assert(rest.drop_first() =~= chars@.subrange(at + 1, chars.len() as int));
        at = at + 1;
    }
    proof {
        let rest = chars@.subrange(at as int, chars.len() as int);
        if at < chars.len() {
            assert(rest[0] == chars@[at as int]);
        }
    }
    at
}

/// Reads a colour such as `#1a2b3c`; every pair of digits must be valid.
pub fn parse_hex(hex: &str) -> (rgb: Option<(u8, u8, u8)>)
    ensures
        rgb == strict_rgb(hex@),
{
    let chars = to_chars(hex);
    let at = hashes(&chars);
    if chars.len() - at < 6 {
        return None;
    }
    match (
        pair(chars[at], chars[at + 1]),
        pair(chars[at + 2], chars[at + 3]),
        pair(chars[at + 4], chars[at + 5]),
    ) {
        (Some(r), Some(g), Some(b)) => Some((r, g, b)),
        _ => None,
    }
}

/// Reads a colour such as `#1a2b3c`; a pair that is not valid counts as 0.
pub fn hex_color(hex: &str) -> (color: Option<Color>)
    ensures
        color == lenient_rgb(hex@),
{
    let chars = to_chars(hex);
    let at = hashes(&chars);
    if chars.len() - at < 6 {
        return None;
    }
    let r = match pair(chars[at], chars[at + 1]) {
        Some(v) => v,
        None => 0,
    };
    let g = match pair(chars[at + 2], chars[at + 3]) {
        Some(v) => v,
        None => 0,
    };
    let b = match pair(chars[at + 4], chars[at + 5]) {
        Some(v) => v,
        None => 0,
    };
    Some(Color::Rgb { r, g, b })
}

/// The text of an optional string.
pub open spec fn opt_text(s: Option<String>) -> Option<Seq<char>> {
    match s {
        Some(t) => Some(t@),
        None => None,
    }
}

fn copy_opt(s: &Option<String>) -> (out: Option<String>)
    ensures
        out == *s,
{
    match s {
        Some(t) => Some(t.clone()),
        None => None,
    }
}

fn pick(own: &Option<String>, base: &Option<String>) -> (out: Option<String>)
    ensures
        out == if own is Some {
            *own
        } else {
            *base
        },
{
    match own {
        Some(t) => Some(t.clone()),
        None => copy_opt(base),
    }
}

/// The number of token kinds that a theme colours.
pub const THEME_FIELDS: usize = 24;

/// The names under which the colours of a theme are looked up, in the
/// order of its fields.
pub open spec fn theme_keys() -> Seq<Seq<char>> {
    seq![
        "background"@,
        "foreground"@,
        "comment"@,
        "namespace"@,
        "type"@,
        "class"@,
        "struct"@,
        "enum"@,
        "interface"@,
        "typeParameter"@,
        "variable"@,
        "parameter"@,
        "property"@,
        "enumMember"@,
        "function"@,
        "method"@,
        "macro"@,
        "event"@,
        "keyword"@,
        "modifier"@,
        "operator"@,
        "string"@,
        "number"@,
        "regexp"@,
    ]
}

/// One optional hex colour per token kind.
#[derive(Clone, Debug)]
pub struct Theme {
    pub Background: Option<String>,
    pub Foreground: Option<String>,
    pub Comment: Option<String>,
    pub Namespace: Option<String>,
    pub Type: Option<String>,
    pub Class: Option<String>,
    pub Struct: Option<String>,
    pub Enum: Option<String>,
    pub Interface: Option<String>,
    pub TypeParameter: Option<String>,
    pub Variable: Option<String>,
    pub Parameter: Option<String>,
    pub Property: Option<String>,
    pub EnumMember: Option<String>,
    pub Function: Option<String>,
    pub Method: Option<String>,
    pub Macro: Option<String>,
    pub Event: Option<String>,
    pub Keyword: Option<String>,
    pub Modifier: Option<String>,
    pub Operator: Option<String>,
    pub String: Option<String>,
    pub Number: Option<String>,
    pub Regexp: Option<String>,
}

/// The entries that the colours `fields[from..]` contribute to a palette,
/// under the names `keys[from..]`: one for each that is set and denotes a
/// colour.
pub open spec fn palette_from(fields: Seq<Option<String>>, keys: Seq<Seq<char>>, from: int) -> Seq<
    (Seq<char>, Color),
>
    decreases fields.len() - from,
{
    if from < 0 || from >= fields.len() {
        Seq::empty()
    } else {
        (match fields[from] {
            Some(hex) => match lenient_rgb(hex@) {
                Some(color) => seq![(keys[from], color)],
                None => Seq::empty(),
            },
            None => Seq::empty(),
        }) + palette_from(fields, keys, from + 1)
    }
}

impl Theme {
    /// The colours of the theme, in the order of its fields.
    pub open spec fn fields(&self) -> Seq<Option<String>> {
        seq![
            self.Background,
            self.Foreground,
            self.Comment,
            self.Namespace,
            self.Type,
            self.Class,
            self.Struct,
            self.Enum,
            self.Interface,
            self.TypeParameter,
            self.Variable,
            self.Parameter,
            self.Property,
            self.EnumMember,
            self.Function,
            self.Method,
            self.Macro,
            self.Event,
            self.Keyword,
            self.Modifier,
            self.Operator,
            self.String,
            self.Number,
            self.Regexp,
        ]
    }

    /// The colours of the default theme.
    pub open spec fn default_fields() -> Seq<Option<Seq<char>>> {
        seq![
            Some("#161617"@),
            Some("#c9c7cd"@),
            Some("#8b8693"@),
            Some("#ea83a5"@),
            Some("#e6b99d"@),
            Some("#e6b99d"@),
            Some("#e6b99d"@),
            Some("#e6b99d"@),
            Some("#e6b99d"@),
            Some("#9f9ca6"@),
            Some("#c9c7cd"@),
            Some("#b4b1ba"@),
            Some("#d8b38b"@),
            Some("#d8b38b"@),
            Some("#92a2d5"@),
            Some("#92a2d5"@),
            Some("#ea83a5"@),
            Some("#85b5ba"@),
            Some("#aca1cf"@),
            Some("#aca1cf"@),
            Some("#e3dcca"@),
            Some("#90b99f"@),
            Some("#e29eca"@),
            Some("#e29eca"@),
        ]
    }

    fn field(&self, i: usize) -> (f: &Option<String>)
        requires
            i < THEME_FIELDS,
        ensures
            *f == self.fields()[i as int],
    {
        match i {
            0 => &self.Background,
            1 => &self.Foreground,
            2 => &self.Comment,
            3 => &self.Namespace,
            4 => &self.Type,
            5 => &self.Class,
            6 => &self.Struct,
            7 => &self.Enum,
            8 => &self.Interface,
            9 => &self.TypeParameter,
            10 => &self.Variable,
            11 => &self.Parameter,
            12 => &self.Property,
            13 => &self.EnumMember,
            14 => &self.Function,
            15 => &self.Method,
            16 => &self.Macro,
            17 => &self.Event,
            18 => &self.Keyword,
            19 => &self.Modifier,
            20 => &self.Operator,
            21 => &self.String,
            22 => &self.Number,
            _ => &self.Regexp,
        }
    }

    fn key(i: usize) -> (k: &'static str)
        requires
            i < THEME_FIELDS,
        ensures
            k@ == theme_keys()[i as int],
    {
        match i {
            0 => "background",
            1 => "foreground",
            2 => "comment",
            3 => "namespace",
            4 => "type",
            5 => "class",
            6 => "struct",
            7 => "enum",
            8 => "interface",
            9 => "typeParameter",
            10 => "variable",
            11 => "parameter",
            12 => "property",
            13 => "enumMember",
            14 => "function",
            15 => "method",
            16 => "macro",
            17 => "event",
            18 => "keyword",
            19 => "modifier",
            20 => "operator",
            21 => "string",
            22 => "number",
            _ => "regexp",
        }
    }

    /// The default theme.
    pub fn builtin() -> (t: Self)
        ensures
            t.fields().map_values(|f: Option<String>| opt_text(f)) == Self::default_fields(),
    {
        let t = Self {
            Background: Some(String::from_str("#161617")),
            Foreground: Some(String::from_str("#c9c7cd")),
            Comment: Some(String::from_str("#8b8693")),
            Namespace: Some(String::from_str("#ea83a5")),
            Type: Some(String::from_str("#e6b99d")),
            Class: Some(String::from_str("#e6b99d")),
            Struct: Some(String::from_str("#e6b99d")),
            Enum: Some(String::from_str("#e6b99d")),
            Interface: Some(String::from_str("#e6b99d")),
            TypeParameter: Some(String::from_str("#9f9ca6")),
            Variable: Some(String::from_str("#c9c7cd")),
            Parameter: Some(String::from_str("#b4b1ba")),
            Property: Some(String::from_str("#d8b38b")),
            EnumMember: Some(String::from_str("#d8b38b")),
            Function: Some(String::from_str("#92a2d5")),
            Method: Some(String::from_str("#92a2d5")),
            Macro: Some(String::from_str("#ea83a5")),
            Event: Some(String::from_str("#85b5ba")),
            Keyword: Some(String::from_str("#aca1cf")),
            Modifier: Some(String::from_str("#aca1cf")),
            Operator: Some(String::from_str("#e3dcca")),
            String: Some(String::from_str("#90b99f")),
            Number: Some(String::from_str("#e29eca")),
            Regexp: Some(String::from_str("#e29eca")),
        };
        assert(t.fields().map_values(|f: Option<String>| opt_text(f)) =~= Self::default_fields());
        t
    }

    /// The default theme, whatever `self` holds.
    pub fn default(&self) -> (t: Self)
        ensures
            t.fields().map_values(|f: Option<String>| opt_text(f)) == Self::default_fields(),
    {
        Self::builtin()
    }

    /// The palette of the theme: for each colour that is set, an entry under
    /// the name of its token kind.
    pub fn to_map(&self) -> (map: Vec<ColorEntry>)
        ensures
            crate::highlighter::palette_view(map@) == palette_from(self.fields(), theme_keys(), 0),
    {
        let mut map: Vec<ColorEntry> = Vec::new();
        let mut i: usize = THEME_FIELDS;
        let ghost fields = self.fields();
        let ghost keys = theme_keys();
        while i > 0
            invariant
                i <= THEME_FIELDS,
                fields == self.fields(),
                fields.len() == THEME_FIELDS,
                keys == theme_keys(),
                crate::highlighter::palette_view(map@) =~= palette_from(fields, keys, i as int),
            decreases i,
        {
            i = i - 1;
            let ghost before = crate::highlighter::palette_view(map@);
            match self.field(i) {
                Some(hex) => {
                    match hex_color(hex.as_str()) {
                        Some(color) => {
                            let name = String::from_str(Self::key(i));
                            map.insert(0, ColorEntry { name, color });
                            assert(crate::highlighter::palette_view(map@) =~= seq![
                                (keys[i as int], color),
                            ] + before);
                        },
                        None => {},
                    }
                },
                None => {},
            }
        }
        map
    }

    /// What `merge` returns: each colour of `self` that is set, else that of
    /// `base`.
    pub open spec fn merged(self, base: Theme) -> Theme {
        Theme {
            Background: if self.Background is Some {
                self.Background
            } else {
                base.Background
            },
            Foreground: if self.Foreground is Some {
                self.Foreground
            } else {
                base.Foreground
            },
            Comment: if self.Comment is Some {
                self.Comment
            } else {
                base.Comment
            },
            Namespace: if self.Namespace is Some {
                self.Namespace
            } else {
                base.Namespace
            },
            Type: if self.Type is Some {
                self.Type
            } else {
                base.Type
            },
            Class: if self.Class is Some {
                self.Class
            } else {
                base.Class
            },
            Struct: if self.Struct is Some {
                self.Struct
            } else {
                base.Struct
            },
            Enum: if self.Enum is Some {
                self.Enum
            } else {
                base.Enum
            },
            Interface: if self.Interface is Some {
                self.Interface
            } else {
                base.Interface
            },
            TypeParameter: if self.TypeParameter is Some {
                self.TypeParameter
            } else {
                base.TypeParameter
            },
            Variable: if self.Variable is Some {
                self.Variable
            } else {
                base.Variable
            },
            Parameter: if self.Parameter is Some {
                self.Parameter
            } else {
                base.Parameter
            },
            Property: if self.Property is Some {
                self.Property
            } else {
                base.Property
            },
            EnumMember: if self.EnumMember is Some {
                self.EnumMember
            } else {
                base.EnumMember
            },
            Function: if self.Function is Some {
                self.Function
            } else {
                base.Function
            },
            Method: if self.Method is Some {
                self.Method
            } else {
                base.Method
            },
            Macro: if self.Macro is Some {
                self.Macro
            } else {
                base.Macro
            },
            Event: if self.Event is Some {
                self.Event
            } else {
                base.Event
            },
            Keyword: if self.Keyword is Some {
                self.Keyword
            } else {
                base.Keyword
            },
            Modifier: if self.Modifier is Some {
                self.Modifier
            } else {
                base.Modifier
            },
            Operator: if self.Operator is Some {
                self.Operator
            } else {
                base.Operator
            },
            String: if self.String is Some {
                self.String
            } else {
                base.String
            },
            Number: if self.Number is Some {
                self.Number
            } else {
                base.Number
            },
            Regexp: if self.Regexp is Some {
                self.Regexp
            } else {
                base.Regexp
            },
        }
    }

    /// This theme, completed from `base` where a colour is not set.
    pub fn merge(&self, base: &Theme) -> (t: Theme)
        ensures
            t == self.merged(*base),
    {
        Theme {
            Background: pick(&self.Background, &base.Background),
            Foreground: pick(&self.Foreground, &base.Foreground),
            Comment: pick(&self.Comment, &base.Comment),
            Namespace: pick(&self.Namespace, &base.Namespace),
            Type: pick(&self.Type, &base.Type),
            Class: pick(&self.Class, &base.Class),
            Struct: pick(&self.Struct, &base.Struct),
            Enum: pick(&self.Enum, &base.Enum),
            Interface: pick(&self.Interface, &base.Interface),
            TypeParameter: pick(&self.TypeParameter, &base.TypeParameter),
            Variable: pick(&self.Variable, &base.Variable),
            Parameter: pick(&self.Parameter, &base.Parameter),
            Property: pick(&self.Property, &base.Property),
            EnumMember: pick(&self.EnumMember, &base.EnumMember),
            Function: pick(&self.Function, &base.Function),
            Method: pick(&self.Method, &base.Method),
            Macro: pick(&self.Macro, &base.Macro),
            Event: pick(&self.Event, &base.Event),
            Keyword: pick(&self.Keyword, &base.Keyword),
            Modifier: pick(&self.Modifier, &base.Modifier),
            Operator: pick(&self.Operator, &base.Operator),
            String: pick(&self.String, &base.String),
            Number: pick(&self.Number, &base.Number),
            Regexp: pick(&self.Regexp, &base.Regexp),
        }
    }

    /// A copy of this theme.
    pub fn duplicate(&self) -> (t: Theme)
        ensures
            t == *self,
    {
        Theme {
            Background: copy_opt(&self.Background),
            Foreground: copy_opt(&self.Foreground),
            Comment: copy_opt(&self.Comment),
            Namespace: copy_opt(&self.Namespace),
            Type: copy_opt(&self.Type),
            Class: copy_opt(&self.Class),
            Struct: copy_opt(&self.Struct),
            Enum: copy_opt(&self.Enum),
            Interface: copy_opt(&self.Interface),
            TypeParameter: copy_opt(&self.TypeParameter),
            Variable: copy_opt(&self.Variable),
            Parameter: copy_opt(&self.Parameter),
            Property: copy_opt(&self.Property),
            EnumMember: copy_opt(&self.EnumMember),
            Function: copy_opt(&self.Function),
            Method: copy_opt(&self.Method),
            Macro: copy_opt(&self.Macro),
            Event: copy_opt(&self.Event),
            Keyword: copy_opt(&self.Keyword),
            Modifier: copy_opt(&self.Modifier),
            Operator: copy_opt(&self.Operator),
            String: copy_opt(&self.String),
            Number: copy_opt(&self.Number),
            Regexp: copy_opt(&self.Regexp),
        }
    }
}

} // verus!
