//! The command line: a line of text with a cursor, shown on demand.

use vstd::prelude::*;
use vstd::string::*;

use crate::text::{insert_char_at, remove_char_at, to_chars};
use crate::types::{CellStyle, Color, Grid, RenderCell};
use crate::ui::ui_element::UiElement;

verus! {

/// The column of the frame at which the text of the command line begins.
pub const COMMAND_TEXT_COL: usize = 6;

/// The column of the frame at which the prompt stands.
pub const COMMAND_PROMPT_COL: usize = 4;

/// The character of the prompt.
pub const COMMAND_PROMPT: char = '\u{f054}';

pub struct Command {
    pub command: String,
    pub shown: bool,
    /// A character column of `command`.
    pub cursor: usize,
}

/// The style of the command line.
pub open spec fn command_style() -> CellStyle {
    CellStyle {
        foreground: Some(Color::Rgb { r: 201, g: 199, b: 205 }),
        background: Some(Color::Rgb { r: 22, g: 22, b: 23 }),
    }
}

/// The cell at column `col` of the row of a command line with the text
/// `text`: the prompt, the text, and spaces elsewhere.
pub open spec fn command_cell(text: Seq<char>, col: int) -> RenderCell {
    if col == COMMAND_PROMPT_COL {
        RenderCell { ch: COMMAND_PROMPT, style: command_style(), transparent: false }
    } else if COMMAND_TEXT_COL <= col < COMMAND_TEXT_COL + text.len() {
        RenderCell { ch: text[col - COMMAND_TEXT_COL], style: command_style(), transparent: false }
    } else {
        RenderCell {
            ch: ' ',
            style: CellStyle { foreground: None, background: command_style().background },
            transparent: false,
        }
    }
}

impl Command {
    /// An empty command line that is not shown.
    pub fn new() -> (c: Self)
        ensures
            c.command@.len() == 0,
            !c.shown,
            c.cursor == 0,
    {
        Self { command: String::new(), shown: false, cursor: 0 }
    }

    pub fn update_command(&mut self, new_command: String)
        ensures
            final(self).command == new_command,
            final(self).shown == old(self).shown,
            final(self).cursor == old(self).cursor,
    {
        self.command = new_command;
    }

    /// The column of the frame just behind the text; it stops at the
    /// largest column.
    pub fn get_position(&self) -> (col: usize)
        ensures
            col == if COMMAND_TEXT_COL + self.command@.len() <= usize::MAX {
                COMMAND_TEXT_COL + self.command@.len()
            } else {
                usize::MAX as int
            },
    {
        let n = self.command.as_str().unicode_len();
        if n > usize::MAX - COMMAND_TEXT_COL {
            usize::MAX
        } else {
            COMMAND_TEXT_COL + n
        }
    }

    /// Moves the cursor by `by` columns, not out of the text.
    pub fn move_cursor(&mut self, by: isize)
        ensures
            final(self).command == old(self).command,
            final(self).shown == old(self).shown,
            final(self).cursor == if old(self).cursor + by < 0 {
                0
            } else if old(self).cursor + by > old(self).command@.len() {
                old(self).command@.len() as int
            } else {
                old(self).cursor + by
            },
    {
        let n = self.command.as_str().unicode_len();
        if by < 0 {
            let back: usize = (-(by + 1)) as usize + 1;
            let at = if back > self.cursor {
                0
            } else {
                self.cursor - back
            };
            self.cursor = if at > n {
                n
            } else {
                at
            };
        } else {
            let forth = by as usize;
            self.cursor = if self.cursor >= n || forth > n - self.cursor {
                n
            } else {
                self.cursor + forth
            };
        }
    }

    /// Inserts `ch` at the cursor and moves the cursor behind it; a cursor
    /// outside the text leaves everything as it is.
    pub fn insert_char(&mut self, ch: char)
        ensures
            final(self).shown == old(self).shown,
            old(self).cursor <= old(self).command@.len() ==> {
                &&& final(self).command@ == old(self).command@.insert(old(self).cursor as int, ch)
                &&& final(self).cursor == old(self).cursor + 1
            },
            old(self).cursor > old(self).command@.len() ==> {
                &&& final(self).command == old(self).command
                &&& final(self).cursor == old(self).cursor
            },
    {
        let n = self.command.as_str().unicode_len();
        if self.cursor <= n {
            let next = insert_char_at(self.command.as_str(), self.cursor, ch);
            let _ = next.as_str().unicode_len();
            self.command = next;
            self.cursor = self.cursor + 1;
        }
    }

    /// Removes the character before the cursor and moves the cursor onto
    /// its place; a cursor at the start or outside the text leaves
    /// everything as it is.
    pub fn delete_char(&mut self)
        ensures
            final(self).shown == old(self).shown,
            0 < old(self).cursor <= old(self).command@.len() ==> {
                &&& final(self).command@ == old(self).command@.remove(old(self).cursor - 1)
                &&& final(self).cursor == old(self).cursor - 1
            },
            !(0 < old(self).cursor <= old(self).command@.len()) ==> {
                &&& final(self).command == old(self).command
                &&& final(self).cursor == old(self).cursor
            },
    {
        let n = self.command.as_str().unicode_len();
        if self.cursor > 0 && self.cursor <= n {
            let next = remove_char_at(self.command.as_str(), self.cursor - 1);
            self.command = next;
            self.cursor = self.cursor - 1;
        }
    }

    /// Draws the command line into row 1 of `frame`, if it is shown and the
    /// frame has such a row: the prompt, the text as far as it fits, and
    /// spaces elsewhere.
    pub fn draw(&self, frame: &mut Grid<RenderCell>)
        ensures
            final(frame).cells@.len() == old(frame).cells@.len(),
            forall|r: int|
                0 <= r < old(frame).cells@.len() && !(r == 1 && self.shown)
                    ==> final(frame).cells@[r] == old(frame).cells@[r],
            self.shown && old(frame).cells@.len() > 1 ==> {
                &&& final(frame).cells@[1]@.len() == old(frame).cells@[1]@.len()
                &&& forall|c: int|
                    0 <= c < old(frame).cells@[1]@.len()
                        ==> (#[trigger] final(frame).cells@[1]@[c])
                        == command_cell(self.command@, c)
            },
    {
        if !self.shown || frame.cells.len() < 2 {
            return ;
        }
        let width = frame.cells[1].len();
        let chars = to_chars(self.command.as_str());
        let style = CellStyle {
            foreground: Some(Color::Rgb { r: 201, g: 199, b: 205 }),
            background: Some(Color::Rgb { r: 22, g: 22, b: 23 }),
        };
        let mut line: Vec<RenderCell> = Vec::new();
        let mut c: usize = 0;
        while c < width
            invariant
                c <= width,
                chars@ == self.command@,
                style == command_style(),
                line@.len() == c,
                forall|j: int| 0 <= j < c ==> (#[trigger] line@[j]) == command_cell(chars@, j),
            decreases width - c,
        {
            let cell = if c == COMMAND_PROMPT_COL {
                RenderCell { ch: COMMAND_PROMPT, style, transparent: false }
            } else if c >= COMMAND_TEXT_COL && c - COMMAND_TEXT_COL < chars.len() {
                RenderCell { ch: chars[c - COMMAND_TEXT_COL], style, transparent: false }
            } else {
                RenderCell {
                    ch: ' ',
                    style: CellStyle { foreground: None, background: style.background },
                    transparent: false,
                }
            };
            let ghost before = line@;
            line.push(cell);
            assert(line@ == before.push(cell));
            assert(cell == command_cell(chars@, c as int));
            c = c + 1;
        }
        frame.cells.set(1, line);
    }
}

impl UiElement for Command {
    /// Draws the command line as `draw` does.
    fn render(&self, frame: &mut Grid<RenderCell>)
        ensures
            final(frame).cells@.len() == old(frame).cells@.len(),
            forall|r: int|
                0 <= r < old(frame).cells@.len() && !(r == 1 && self.shown)
                    ==> final(frame).cells@[r] == old(frame).cells@[r],
            self.shown && old(frame).cells@.len() > 1 ==> {
                &&& final(frame).cells@[1]@.len() == old(frame).cells@[1]@.len()
                &&& forall|c: int|
                    0 <= c < old(frame).cells@[1]@.len()
                        ==> (#[trigger] final(frame).cells@[1]@[c])
                        == command_cell(self.command@, c)
            },
    {
        self.draw(frame);
    }
}

} // verus!
