//! Plain value types shared by every component.

#![allow(non_snake_case)]

use vstd::prelude::*;
use vstd::string::*;

use crate::plugins::config::Config;
use crate::text::push_char;
use crate::plugins::theme::{hex_color, lenient_rgb, opt_text};

verus! {

/// Identifies a buffer; buffers are numbered in the order they are opened.
#[derive(Clone, Copy, Debug, PartialEq, Eq, Hash, Structural)]
pub struct BufferId(pub u64);

/// Identifies a view; views are numbered in the order they are opened.
#[derive(Clone, Copy, Debug, PartialEq, Eq, Hash, Structural)]
pub struct ViewId(pub u64);

/// A cursor position: `row` is a line index, `col` a character index.
#[derive(Clone, Copy, Debug, PartialEq, Eq, Structural)]
pub struct Cursor {
    pub row: usize,
    pub col: usize,
}

/// First visible column and first visible row of a view.
#[derive(Clone, Copy, Debug, PartialEq, Eq, Structural)]
pub struct ScrollOffset {
    pub horizontal: usize,
    pub vertical: usize,
}

/// Viewport dimensions in terminal cells.
#[derive(Clone, Copy, Debug, PartialEq, Eq, Structural)]
pub struct Size {
    pub cols: u16,
    pub rows: u16,
}

/// A rectangle of terminal cells.
#[derive(Clone, Copy, Debug, PartialEq, Eq, Structural)]
pub struct Rect {
    pub x: u16,
    pub y: u16,
    pub cols: u16,
    pub rows: u16,
}

/// What keystrokes mean in a view.
#[derive(Clone, Copy, Debug, PartialEq, Eq, Structural)]
pub enum EditorMode {
    Insert,
    Command,
    Normal,
}

#[derive(Clone, Copy, Debug, PartialEq, Eq, Structural)]
pub enum Direction {
    Up,
    Down,
    Left,
    Right,
}

#[derive(Clone, Copy, Debug, PartialEq, Eq, Hash, Structural)]
pub enum Key {
    Char(char),
    Enter,
    Backspace,
    Tab,
    Esc,
    Left,
    Right,
    Up,
    Down,
    Home,
    End,
    PageUp,
    PageDown,
    Delete,
    Insert,
    /// A function key, F1 to F12.
    F(u8),
    Unknown,
}

#[derive(Clone, Copy, Debug, PartialEq, Eq, Hash, Structural)]
pub struct Modifiers {
    pub ctrl: bool,
    pub alt: bool,
    pub shift: bool,
    /// Ctrl or Cmd, depending on the platform.
    pub super_key: bool,
}

impl Modifiers {
    /// No modifier held.
    pub open spec fn none() -> Modifiers {
        Modifiers { ctrl: false, alt: false, shift: false, super_key: false }
    }
}

impl Default for Modifiers {
    fn default() -> (m: Self)
        ensures
            m == Modifiers::none(),
    {
        Modifiers { ctrl: false, alt: false, shift: false, super_key: false }
    }
}

/// What the editor can be asked to do.
#[derive(Clone, Copy, Debug, PartialEq, Eq, Structural)]
pub enum EditorAction {
    MoveCursor(Direction),
    InsertChar(char),
    DeleteChar,
    InsertNewline,
    StartCommandLine,
    ExecuteCommand,
    SwitchBuffer(BufferId),
    SaveCurrentBuffer,
    ChangeMode(EditorMode),
    QuitRequested,
    Undo,
    Redo,
}

/// What the editor asks of the application loop in return.
#[derive(Clone, Debug, PartialEq)]
pub enum EditorEvent {
    CursorMoved(Cursor),
    BufferOpened(BufferId),
    SaveRequested(BufferId),
    QuitRequested,
    CommandRequested(String),
    /// The language server of this name is to be started.
    StartLsp(String),
    /// Nothing is asked.
    Idle,
}

/// A cell position on screen.
#[derive(Clone, Copy, Debug, PartialEq, Eq, Structural)]
pub struct Location {
    pub col: u16,
    pub row: u16,
}

/// A terminal colour.
#[derive(Clone, Copy, Debug, PartialEq, Eq, Structural)]
pub enum Color {
    Reset,
    Black,
    DarkGrey,
    Red,
    DarkRed,
    Green,
    DarkGreen,
    Yellow,
    DarkYellow,
    Blue,
    DarkBlue,
    Magenta,
    DarkMagenta,
    Cyan,
    DarkCyan,
    White,
    Grey,
    Rgb { r: u8, g: u8, b: u8 },
    AnsiValue(u8),
}

/// The model of a [`Token`].
pub struct TokenView {
    pub text: Seq<char>,
    pub offset: int,
    pub style: Option<Color>,
}

impl TokenView {
    /// The column just past the token's last character.
    pub open spec fn end(self) -> int {
        self.offset + self.text.len()
    }
}

/// A styled span of one line: `text` starts at character column `offset`.
#[derive(Clone, Debug, PartialEq)]
pub struct Token {
    pub text: String,
    pub offset: usize,
    pub style: Option<Color>,
}

impl View for Token {
    type V = TokenView;

    open spec fn view(&self) -> TokenView {
        TokenView { text: self.text@, offset: self.offset as int, style: self.style }
    }
}

impl Token {
    /// A copy of this token.
    pub fn duplicate(&self) -> (t: Token)
        ensures
            t@ == self@,
    {
        Token { text: self.text.clone(), offset: self.offset, style: self.style }
    }
}

/// The models of a sequence of tokens.
pub open spec fn token_views(tokens: Seq<Token>) -> Seq<TokenView> {
    tokens.map_values(|t: Token| t@)
}

/// The models of a table of tokens, one sequence per row.
pub open spec fn table_views(table: Seq<Vec<Token>>) -> Seq<Seq<TokenView>> {
    table.map_values(|row: Vec<Token>| token_views(row@))
}

/// A copy of a token list.
pub fn duplicate_tokens(tokens: &Vec<Token>) -> (out: Vec<Token>)
    ensures
        token_views(out@) == token_views(tokens@),
{
    let mut out: Vec<Token> = Vec::new();
    let mut i: usize = 0;
    while i < tokens.len()
        invariant
            i <= tokens.len(),
            out.len() == i,
            forall|j: int| 0 <= j < i ==> out[j]@ == tokens[j]@,
        decreases tokens.len() - i,
    {
        out.push(tokens[i].duplicate());
        i = i + 1;
    }
    assert(token_views(out@) =~= token_views(tokens@));
    out
}

/// The regular expressions of one language, one per token kind.
pub struct SyntaxRegex {
    pub keywords: String,
    pub types: String,
    pub literals: String,
    pub comments: String,
    pub functions: String,
    pub attributes: String,
    pub punctuations: String,
}

/// A rectangle of cells, stored row by row.
#[derive(Clone, Debug, PartialEq)]
pub struct Grid<T> {
    pub cells: Vec<Vec<T>>,
}

impl<T: Copy> Grid<T> {
    /// A grid is rectangular: all its rows have the same number of cells.
    pub open spec fn wf(&self) -> bool {
        forall|r: int| 0 <= r < self.cells@.len() ==> (#[trigger] self.cells@[r])@.len()
            == self.width()
    }

    /// The number of columns: the length of the first row, 0 where there is
    /// no row.
    pub open spec fn width(&self) -> int {
        if self.cells@.len() > 0 {
            self.cells@[0]@.len() as int
        } else {
            0
        }
    }

    /// Whether the grid has a cell at (`row`, `col`).
    pub open spec fn has(&self, row: int, col: int) -> bool {
        0 <= row < self.cells@.len() && 0 <= col < self.cells@[row]@.len()
    }

    /// A grid of `rows` by `cols` cells, all of them `fill`.
    pub fn new(rows: usize, cols: usize, fill: T) -> (g: Self)
        ensures
            g.wf(),
            g.cells@.len() == rows,
            forall|r: int| 0 <= r < rows ==> (#[trigger] g.cells@[r])@.len() == cols,
            forall|r: int, c: int| 0 <= r < rows && 0 <= c < cols ==> g.cells@[r]@[c] == fill,
    {
        let mut cells: Vec<Vec<T>> = Vec::new();
        let mut r: usize = 0;
        while r < rows
            invariant
                r <= rows,
                cells@.len() == r,
                forall|i: int| 0 <= i < r ==> (#[trigger] cells@[i])@.len() == cols,
                forall|i: int, c: int| 0 <= i < r && 0 <= c < cols ==> cells@[i]@[c] == fill,
            decreases rows - r,
        {
            let mut row: Vec<T> = Vec::new();
            let mut c: usize = 0;
            while c < cols
                invariant
                    c <= cols,
                    row@.len() == c,
                    forall|j: int| 0 <= j < c ==> row@[j] == fill,
                decreases cols - c,
            {
                row.push(fill);
                c = c + 1;
            }
            cells.push(row);
            r = r + 1;
        }
        Self { cells }
    }

    /// Copies `src` onto this grid with its top left cell at column `x`,
    /// row `y`; what does not fit is cut off.
    pub fn blit(&mut self, src: &Grid<T>, x: usize, y: usize)
        ensures
            final(self).cells@.len() == old(self).cells@.len(),
            forall|r: int|
                0 <= r < old(self).cells@.len() ==> (#[trigger] final(self).cells@[r])@.len()
                    == old(self).cells@[r]@.len(),
            forall|r: int, c: int|
                old(self).has(r, c) ==> (#[trigger] final(self).cells@[r]@[c]) == if src.has(
                    r - y,
                    c - x,
                ) {
                    src.cells@[r - y]@[c - x]
                } else {
                    old(self).cells@[r]@[c]
                },
    {
        let rows = self.cells.len();
        let mut r: usize = 0;
        while r < rows
            invariant
                r <= rows,
                rows == old(self).cells@.len(),
                self.cells@.len() == rows,
                forall|i: int|
                    0 <= i < rows ==> (#[trigger] self.cells@[i])@.len() == old(self).cells@[i]@.len(),
                forall|i: int, c: int|
                    old(self).has(i, c) ==> (#[trigger] self.cells@[i]@[c]) == if i < r && src.has(
                        i - y,
                        c - x,
                    ) {
                        src.cells@[i - y]@[c - x]
                    } else {
                        old(self).cells@[i]@[c]
                    },
            decreases rows - r,
        {
            if r >= y && r - y < src.cells.len() {
                let from = &src.cells[r - y];
                let under = &self.cells[r];
                let mut line: Vec<T> = Vec::new();
                let mut c: usize = 0;
                while c < under.len()
                    invariant
                        c <= under.len(),
                        line@.len() == c,
                        forall|j: int|
                            0 <= j < c ==> (#[trigger] line@[j]) == if x <= j && j - x
                                < from@.len() {
                                from@[j - x]
                            } else {
                                under@[j]
                            },
                    decreases under.len() - c,
                {
                    let cell = if c >= x && c - x < from.len() {
                        from[c - x]
                    } else {
                        under[c]
                    };
                    line.push(cell);
                    c = c + 1;
                }
                self.cells.set(r, line);
            }
            r = r + 1;
        }
    }

    pub fn get(&self, row: usize) -> (line: Option<&Vec<T>>)
        ensures
            match line {
                Some(l) => row < self.cells@.len() && *l == self.cells@[row as int],
                None => row >= self.cells@.len(),
            },
    {
        if row < self.cells.len() {
            Some(&self.cells[row])
        } else {
            None
        }
    }

    pub fn rows(&self) -> (n: usize)
        ensures
            n == self.cells@.len(),
    {
        self.cells.len()
    }

    pub fn cols(&self) -> (n: usize)
        ensures
            n == self.width(),
    {
        if self.cells.len() > 0 {
            self.cells[0].len()
        } else {
            0
        }
    }
}

/// The colours of one cell; a colour that is not set is the terminal's.
#[derive(Clone, Copy, Debug, PartialEq, Eq, Structural)]
pub struct CellStyle {
    pub foreground: Option<Color>,
    pub background: Option<Color>,
}

/// One cell of the screen.
#[derive(Clone, Copy, Debug, PartialEq, Eq, Structural)]
pub struct RenderCell {
    pub ch: char,
    pub style: CellStyle,
    /// A transparent cell lets the layer below show.
    pub transparent: bool,
}

impl RenderCell {
    /// A cell for the first character of `g`, or a space where `g` is empty.
    pub fn from_grapheme(g: &str, style: CellStyle) -> (cell: Self)
        ensures
            cell.ch == if g@.len() > 0 {
                g@[0]
            } else {
                ' '
            },
            cell.style == style,
            !cell.transparent,
    {
        let ch = if g.unicode_len() > 0 {
            g.get_char(0)
        } else {
            ' '
        };
        Self { ch, style, transparent: false }
    }

    /// The style that writes the hex colour `colors.0` on `colors.1`.
    pub open spec fn plain_style(colors: (Option<Seq<char>>, Option<Seq<char>>)) -> CellStyle {
        CellStyle {
            foreground: match colors.0 {
                Some(hex) => lenient_rgb(hex),
                None => None,
            },
            background: match colors.1 {
                Some(hex) => lenient_rgb(hex),
                None => None,
            },
        }
    }

    /// The style of plain text: foreground on background of the theme in
    /// use.
    pub fn default_style(config: &Config) -> (style: CellStyle)
        ensures
            style == Self::plain_style(config.plain_colors()),
    {
        let theme = config.current_theme();
        proof {
            let texts = theme.fields().map_values(|f: Option<String>| opt_text(f));
            assert(texts[0] == opt_text(theme.Background));
            assert(texts[1] == opt_text(theme.Foreground));
        }
        CellStyle {
            foreground: match &theme.Foreground {
                Some(hex) => hex_color(hex.as_str()),
                None => None,
            },
            background: match &theme.Background {
                Some(hex) => hex_color(hex.as_str()),
                None => None,
            },
        }
    }

    /// A transparent space without colours.
    pub open spec fn blank_cell() -> RenderCell {
        RenderCell {
            ch: ' ',
            style: CellStyle { foreground: None, background: None },
            transparent: true,
        }
    }

    /// A transparent space without colours.
    pub fn blank() -> (cell: Self)
        ensures
            cell == Self::blank_cell(),
    {
        Self { ch: ' ', style: CellStyle { foreground: None, background: None }, transparent: true }
    }

    /// A space in the style of plain text.
    pub fn space(config: &Config) -> (cell: Self)
        ensures
            cell == (RenderCell {
                ch: ' ',
                style: Self::plain_style(config.plain_colors()),
                transparent: false,
            }),
    {
        Self { ch: ' ', style: Self::default_style(config), transparent: false }
    }

    /// A tilde in the style of plain text; it marks a row past the end of
    /// the buffer.
    pub fn tilde(config: &Config) -> (cell: Self)
        ensures
            cell == (RenderCell {
                ch: '~',
                style: Self::plain_style(config.plain_colors()),
                transparent: false,
            }),
    {
        Self { ch: '~', style: Self::default_style(config), transparent: false }
    }
}

#[derive(Clone, Debug, PartialEq)]
pub struct RenderLine {
    pub cells: Vec<RenderCell>,
}

/// The lines that are on screen and the lines that are to be drawn.
#[derive(Clone, Debug, PartialEq)]
pub struct RenderBuffer {
    pub drawn: Vec<RenderLine>,
    pub current: Vec<RenderLine>,
}

/// The characters of `cells[..upto]`.
pub open spec fn cell_chars(cells: Seq<RenderCell>, upto: int) -> Seq<char>
    decreases upto,
{
    if upto <= 0 || upto > cells.len() {
        Seq::empty()
    } else {
        cell_chars(cells, upto - 1).push(cells[upto - 1].ch)
    }
}

/// The characters of `lines[..upto]`, line by line, with a line feed
/// between two lines.
pub open spec fn dumped(lines: Seq<RenderLine>, upto: int) -> Seq<char>
    decreases upto,
{
    if upto <= 0 || upto > lines.len() {
        Seq::empty()
    } else if upto == 1 {
        cell_chars(lines[0].cells@, lines[0].cells@.len() as int)
    } else {
        dumped(lines, upto - 1) + seq!['\n'] + cell_chars(
            lines[upto - 1].cells@,
            lines[upto - 1].cells@.len() as int,
        )
    }
}

impl RenderBuffer {
    /// The lines that are to be drawn, as text: the characters of their
    /// cells, with a line feed between two lines.
    pub fn dump(&self) -> (text: String)
        ensures
            text@ == dumped(self.current@, self.current@.len() as int),
    {
        let mut text = String::new();
        let mut i: usize = 0;
        while i < self.current.len()
            invariant
                i <= self.current.len(),
                text@ == dumped(self.current@, i as int),
            decreases self.current.len() - i,
        {
            if i > 0 {
                push_char(&mut text, '\n');
            }
            let cells = &self.current[i].cells;
            let ghost head = text@;
            let mut c: usize = 0;
            while c < cells.len()
                invariant
                    c <= cells.len(),
                    text@ == head + cell_chars(cells@, c as int),
                decreases cells.len() - c,
            {
                push_char(&mut text, cells[c].ch);
                c = c + 1;
                assert(text@ =~= head + cell_chars(cells@, c as int));
            }
            i = i + 1;
            assert(text@ =~= dumped(self.current@, i as int)) by {
                if i == 1 {
                    assert(head =~= Seq::<char>::empty());
                }
            }
        }
        text
    }
}

} // verus!
