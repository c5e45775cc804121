//! The status bar: the name of the editor, the file, and the position of
//! the cursor with the mode.

use vstd::prelude::*;
use vstd::string::*;

use crate::text::{decimal, format_decimal, push_char, to_chars};
use crate::types::{CellStyle, Color, Cursor, EditorMode, Grid, RenderCell};
use crate::ui::ui_element::UiElement;

verus! {

pub struct StatusBar {
    pub name: String,
    pub file: String,
    pub pos: Cursor,
    pub mode: EditorMode,
    pub bg: Color,
    pub fg: Color,
    pub left_symbol: String,
    pub right_symbol: String,
}

/// A piece of text in one style.
pub struct StyledText {
    pub text: String,
    pub style: CellStyle,
}

/// The background behind the status bar.
pub open spec fn bar_background() -> Color {
    Color::Rgb { r: 22, g: 22, b: 23 }
}

/// `n` in decimal digits, with a leading zero where it has one digit only.
pub open spec fn two_digits(n: nat) -> Seq<char> {
    if n < 10 {
        seq!['0'] + decimal(n)
    } else {
        decimal(n)
    }
}

/// Writes `n` in decimal digits, at least two of them.
pub fn format_two_digits(n: usize) -> (s: String)
    ensures
        s@ == two_digits(n as nat),
{
    let digits = format_decimal(n);
    if n < 10 {
        let mut s = String::new();
        push_char(&mut s, '0');
        s.append(digits.as_str());
        s
    } else {
        digits
    }
}

/// The character at column `col` of `text`, or a space where there is none.
pub open spec fn glyph(text: Seq<char>, col: int) -> char {
    if 0 <= col < text.len() {
        text[col]
    } else {
        ' '
    }
}

/// The cells that show `text` in `style`.
pub open spec fn styled(text: Seq<char>, style: CellStyle) -> Seq<RenderCell> {
    Seq::new(text.len(), |i: int| RenderCell { ch: glyph(text, i), style, transparent: false })
}

fn push_styled(cells: &mut Vec<RenderCell>, part: &StyledText)
    ensures
        final(cells)@ == old(cells)@ + styled(part.text@, part.style),
{
    let chars = to_chars(part.text.as_str());
    let ghost before = cells@;
    let mut i: usize = 0;
    assert(cells@ =~= before + styled(chars@.subrange(0, 0), part.style));
    while i < chars.len()
        invariant
            i <= chars.len(),
            chars@ == part.text@,
            cells@ == before + styled(chars@.subrange(0, i as int), part.style),
        decreases chars.len() - i,
    {
        let ghost done = styled(chars@.subrange(0, i as int), part.style);
        cells.push(RenderCell { ch: chars[i], style: part.style, transparent: false });
        i = i + 1;
        proof {
            let next = styled(chars@.subrange(0, i as int), part.style);
            assert(next.len() == done.len() + 1);
            assert forall|j: int| 0 <= j < done.len() implies next[j] == done[j] by {
                assert(glyph(chars@.subrange(0, i as int), j) == glyph(
                    chars@.subrange(0, i - 1),
                    j,
                ));
            }
            assert(glyph(chars@.subrange(0, i as int), i - 1) == chars@[i - 1]);
            assert(next =~= done.push(cells@.last()));
        }
        assert(cells@ =~= before + styled(chars@.subrange(0, i as int), part.style));
    }
    assert(chars@.subrange(0, i as int) =~= chars@);
}

impl StatusBar {
    /// The number after `n`; the largest number stays.
    pub open spec fn counted(n: usize) -> nat {
        if n < usize::MAX {
            (n + 1) as nat
        } else {
            n as nat
        }
    }

    /// The text that says where the cursor is and in which mode: column and
    /// line, counted from 1, and a mark for insert or command mode.
    pub open spec fn state_text(pos: Cursor, mode: EditorMode) -> Seq<char> {
        two_digits(Self::counted(pos.col)) + seq![':'] + two_digits(Self::counted(pos.row)) + match mode {
            EditorMode::Insert => " INS"@,
            EditorMode::Command => " CMD"@,
            EditorMode::Normal => ""@,
        }
    }

    /// The cells of an item with the title `title`.
    pub open spec fn item_cells(&self, title: Seq<char>) -> Seq<RenderCell> {
        styled(
            self.left_symbol@,
            CellStyle { foreground: Some(self.bg), background: Some(bar_background()) },
        ) + styled(
            seq![' '] + title + seq![' '],
            CellStyle { foreground: Some(self.fg), background: Some(self.bg) },
        ) + styled(
            self.right_symbol@,
            CellStyle { foreground: Some(self.bg), background: Some(bar_background()) },
        )
    }

    /// The cells of the bar before the gap: the name of the editor, a
    /// space, and the file.
    pub open spec fn left_cells(&self) -> Seq<RenderCell> {
        self.item_cells(self.name@) + styled(
            seq![' '],
            CellStyle { foreground: None, background: Some(bar_background()) },
        ) + self.item_cells(self.file@)
    }

    /// The cells of a bar of `width` columns: name and file at the left,
    /// position and mode at the right, the gap between them filled with
    /// spaces. A bar that does not fit is longer than `width`.
    pub open spec fn bar_cells(&self, width: int) -> Seq<RenderCell> {
        let left = self.left_cells();
        let right = self.item_cells(Self::state_text(self.pos, self.mode));
        let gap = if width > left.len() + right.len() {
            width - left.len() - right.len()
        } else {
            0
        };
        left + styled(
            Seq::new(gap as nat, |i: int| ' '),
            CellStyle { foreground: None, background: Some(bar_background()) },
        ) + right
    }

    /// A status bar for the file `file.rs`, cursor at the start, normal
    /// mode, light grey on grey.
    pub fn new() -> (bar: Self)
        ensures
            bar.name@ == "Oxidy"@,
            bar.file@ == "file.rs"@,
            bar.pos == (Cursor { row: 0, col: 0 }),
            bar.mode == EditorMode::Normal,
            bar.bg == (Color::Rgb { r: 68, g: 68, b: 72 }),
            bar.fg == (Color::Rgb { r: 201, g: 199, b: 205 }),
            bar.left_symbol@ == "\u{e0b6}"@,
            bar.right_symbol@ == "\u{e0b4}"@,
    {
        Self {
            name: String::from_str("Oxidy"),
            file: String::from_str("file.rs"),
            pos: Cursor { row: 0, col: 0 },
            mode: EditorMode::Normal,
            bg: Color::Rgb { r: 68, g: 68, b: 72 },
            fg: Color::Rgb { r: 201, g: 199, b: 205 },
            left_symbol: String::from_str("\u{e0b6}"),
            right_symbol: String::from_str("\u{e0b4}"),
        }
    }

    /// An item of the bar: `title` between two spaces in the colours of the
    /// bar, between the left and the right symbol.
    pub fn item(&self, title: &str) -> (parts: Vec<StyledText>)
        ensures
            parts@.len() == 3,
            parts@[0].text@ == self.left_symbol@,
            parts@[0].style == (CellStyle {
                foreground: Some(self.bg),
                background: Some(bar_background()),
            }),
            parts@[1].text@ == seq![' '] + title@ + seq![' '],
            parts@[1].style == (CellStyle { foreground: Some(self.fg), background: Some(self.bg) }),
            parts@[2].text@ == self.right_symbol@,
            parts@[2].style == parts@[0].style,
    {
        let edge = CellStyle {
            foreground: Some(self.bg),
            background: Some(Color::Rgb { r: 22, g: 22, b: 23 }),
        };
        let mut text = String::new();
        push_char(&mut text, ' ');
        text.append(title);
        push_char(&mut text, ' ');
        assert(text@ =~= seq![' '] + title@ + seq![' ']);
        let mut parts: Vec<StyledText> = Vec::new();
        parts.push(StyledText { text: self.left_symbol.clone(), style: edge });
        parts.push(
            StyledText {
                text,
                style: CellStyle { foreground: Some(self.fg), background: Some(self.bg) },
            },
        );
        parts.push(StyledText { text: self.right_symbol.clone(), style: edge });
        parts
    }

    /// `amount` spaces on the background of the bar.
    pub fn spacer(&self, amount: usize) -> (gap: StyledText)
        ensures
            gap.text@ == Seq::new(amount as nat, |i: int| ' '),
            gap.style == (CellStyle { foreground: None, background: Some(bar_background()) }),
    {
        let mut text = String::new();
        let mut i: usize = 0;
        while i < amount
            invariant
                i <= amount,
                text@ == Seq::new(i as nat, |j: int| ' '),
            decreases amount - i,
        {
            push_char(&mut text, ' ');
            i = i + 1;
            assert(text@ =~= Seq::new(i as nat, |j: int| ' '));
        }
        StyledText {
            text,
            style: CellStyle {
                foreground: None,
                background: Some(Color::Rgb { r: 22, g: 22, b: 23 }),
            },
        }
    }

    /// A bar of `width` columns has `width` cells at least.
    pub proof fn lemma_bar_width(&self, width: int)
        requires
            0 <= width,
        ensures
            self.bar_cells(width).len() >= width,
    {
    }

    /// The text of the position and mode.
    pub fn state(&self) -> (text: String)
        ensures
            text@ == Self::state_text(self.pos, self.mode),
    {
        let col = if self.pos.col < usize::MAX {
            self.pos.col + 1
        } else {
            self.pos.col
        };
        let row = if self.pos.row < usize::MAX {
            self.pos.row + 1
        } else {
            self.pos.row
        };
        let mut text = format_two_digits(col);
        push_char(&mut text, ':');
        let row_text = format_two_digits(row);
        text.append(row_text.as_str());
        match self.mode {
            EditorMode::Insert => text.append(" INS"),
            EditorMode::Command => text.append(" CMD"),
            EditorMode::Normal => text.append(""),
        }
        assert(text@ =~= Self::state_text(self.pos, self.mode));
        text
    }

    fn push_item(&self, cells: &mut Vec<RenderCell>, title: &str)
        ensures
            final(cells)@ == old(cells)@ + self.item_cells(title@),
    {
        let ghost before = cells@;
        let parts = self.item(title);
        push_styled(cells, &parts[0]);
        push_styled(cells, &parts[1]);
        push_styled(cells, &parts[2]);
        assert(cells@ =~= before + self.item_cells(title@));
    }

    /// Draws the bar into row 0 of `frame`, if the frame has such a row;
    /// what does not fit into the row is cut off.
    pub fn draw(&self, frame: &mut Grid<RenderCell>)
        ensures
            final(frame).cells@.len() == old(frame).cells@.len(),
            forall|r: int|
                0 < r < old(frame).cells@.len() ==> final(frame).cells@[r] == old(frame).cells@[r],
            old(frame).cells@.len() > 0 ==> final(frame).cells@[0]@ == self.bar_cells(
                old(frame).cells@[0]@.len() as int,
            ).subrange(0, old(frame).cells@[0]@.len() as int),
    {
        if frame.cells.len() == 0 {
            return ;
        }
        let width = frame.cells[0].len();
        let mut left: Vec<RenderCell> = Vec::new();
        self.push_item(&mut left, self.name.as_str());
        let one = self.spacer(1);
        assert(one.text@ =~= seq![' ']);
        push_styled(&mut left, &one);
        self.push_item(&mut left, self.file.as_str());
        assert(left@ =~= self.left_cells());
        let mut right: Vec<RenderCell> = Vec::new();
        let state = self.state();
        self.push_item(&mut right, state.as_str());
        assert(right@ =~= self.item_cells(Self::state_text(self.pos, self.mode)));
        let gap: usize = if width > left.len() && width - left.len() > right.len() {
            width - left.len() - right.len()
        } else {
            0
        };
        let filler = self.spacer(gap);
        let ghost before_gap = left@.len();
        push_styled(&mut left, &filler);
        assert(left@.len() == before_gap + gap);
        let ghost all = self.bar_cells(width as int);
        let mut line: Vec<RenderCell> = Vec::new();
        let mut c: usize = 0;
        assert(left@ + right@ =~= all);
        assert(all.len() == left@.len() + right@.len());
        assert(width <= all.len());
        assert(all.subrange(0, 0) =~= Seq::<RenderCell>::empty());
        while c < width
            invariant
                c <= width,
                left@ + right@ == all,
                width <= all.len(),
                line@ == all.subrange(0, c as int),
            decreases width - c,
        {
            let cell = if c < left.len() {
                left[c]
            } else {
                right[c - left.len()]
            };
            line.push(cell);
            c = c + 1;
            assert(line@ =~= all.subrange(0, c as int));
        }
        frame.cells.set(0, line);
    }
}

impl UiElement for StatusBar {
    /// Draws the bar as `draw` does.
    fn render(&self, frame: &mut Grid<RenderCell>)
        ensures
            final(frame).cells@.len() == old(frame).cells@.len(),
            forall|r: int|
                0 < r < old(frame).cells@.len() ==> final(frame).cells@[r] == old(frame).cells@[r],
            old(frame).cells@.len() > 0 ==> final(frame).cells@[0]@ == self.bar_cells(
                old(frame).cells@[0]@.len() as int,
            ).subrange(0, old(frame).cells@[0]@.len() as int),
    {
        self.draw(frame);
    }
}

} // verus!
