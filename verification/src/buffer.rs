//! Line storage and raw text mutation.
//!
//! A buffer is modelled by its rows: a sequence of lines, each a sequence of
//! characters, with no line terminator stored. Every edit is specified as a
//! function from the rows before to the rows after.

use vstd::prelude::*;
use vstd::string::*;

use crate::highlighter::{default_palette, palette_view, Highlighter};
use crate::text::{concat_lines, from_chars, insert_char_at, push_char, remove_char_at, to_chars};
use crate::types::{BufferId, Cursor, EditorMode, ScrollOffset, Size, ViewId};

verus! {

/// A selected range of text. The editor selects nothing: the selection of
/// every view is `None`.
#[derive(Clone, Debug)]
pub struct Selection {}

/// Where an absolute jump lands.
pub enum BufferLocation {
    Top,
    Bottom,
    StartLine,
    EndLine,
    PreviousWord,
    NextWord,
}

/// `rows` joined by line feeds.
pub open spec fn joined(rows: Seq<Seq<char>>) -> Seq<char>
    decreases rows.len(),
{
    if rows.len() == 0 {
        Seq::empty()
    } else if rows.len() == 1 {
        rows[0]
    } else {
        joined(rows.drop_last()) + seq!['\n'] + rows.last()
    }
}

/// `col` clamped to the length of `line`.
pub open spec fn clamped_col(line: Seq<char>, col: int) -> int {
    if col <= line.len() {
        col
    } else {
        line.len() as int
    }
}

/// The rows after inserting `c` at (`row`, `col`): a column past the end of
/// the line inserts at its end, a row outside the buffer changes nothing.
pub open spec fn rows_after_insert(rows: Seq<Seq<char>>, row: int, col: int, c: char) -> Seq<
    Seq<char>,
> {
    if 0 <= row < rows.len() {
        rows.update(row, rows[row].insert(clamped_col(rows[row], col), c))
    } else {
        rows
    }
}

/// Whether a backspace at (`row`, 0) joins the line onto the previous one.
pub open spec fn joins_lines(rows: Seq<Seq<char>>, row: int, col: int) -> bool {
    col == 0 && 0 < row < rows.len()
}

/// Whether a backspace at (`row`, `col`) removes a character of the line.
pub open spec fn removes_char(rows: Seq<Seq<char>>, row: int, col: int) -> bool {
    0 <= row < rows.len() && 0 < col <= rows[row].len()
}

/// The rows after a backspace at (`row`, `col`).
pub open spec fn rows_after_delete(rows: Seq<Seq<char>>, row: int, col: int) -> Seq<Seq<char>> {
    if joins_lines(rows, row, col) {
        rows.update(row - 1, rows[row - 1] + rows[row]).remove(row)
    } else if removes_char(rows, row, col) {
        rows.update(row, rows[row].remove(col - 1))
    } else {
        rows
    }
}

/// Where a backspace at (`row`, `col`) leaves the cursor: at the join point,
/// one column to the left, or in place when nothing was removed.
pub open spec fn cursor_after_delete(rows: Seq<Seq<char>>, row: int, col: int) -> (int, int) {
    if joins_lines(rows, row, col) {
        (row - 1, rows[row - 1].len() as int)
    } else if removes_char(rows, row, col) {
        (row, col - 1)
    } else {
        (row, col)
    }
}

/// The rows after splitting line `row` at `col`.
pub open spec fn rows_after_newline(rows: Seq<Seq<char>>, row: int, col: int) -> Seq<Seq<char>> {
    if 0 <= row < rows.len() {
        let at = clamped_col(rows[row], col);
        rows.update(row, rows[row].subrange(0, at)).insert(
            row + 1,
            rows[row].subrange(at, rows[row].len() as int),
        )
    } else {
        rows
    }
}

/// `width` spaces.
pub open spec fn spaces(width: int) -> Seq<char> {
    Seq::new(width as nat, |i: int| ' ')
}

/// The rows after inserting `width` spaces at (`row`, `col`).
pub open spec fn rows_after_tab(rows: Seq<Seq<char>>, row: int, col: int, width: int) -> Seq<
    Seq<char>,
> {
    if 0 <= row < rows.len() {
        let at = clamped_col(rows[row], col);
        rows.update(
            row,
            rows[row].subrange(0, at) + spaces(width) + rows[row].subrange(
                at,
                rows[row].len() as int,
            ),
        )
    } else {
        rows
    }
}

/// The version after one content change; it stops at the largest value.
pub open spec fn next_version(version: u32) -> u32 {
    if version < u32::MAX {
        (version + 1) as u32
    } else {
        version
    }
}

/// The text of one document.
#[derive(Clone, Debug)]
pub struct Buffer {
    pub lines: Vec<String>,
    /// Empty for a scratch buffer.
    pub path: String,
    /// Grows with every change of content.
    pub version: u32,
}

impl Buffer {
    /// The rows of the buffer.
    pub open spec fn rows(&self) -> Seq<Seq<char>> {
        Seq::new(self.lines@.len(), |i: int| self.lines@[i]@)
    }

    /// A buffer in active editing holds at least one line.
    pub open spec fn wf(&self) -> bool {
        self.lines@.len() > 0
    }

    /// Whether `cursor` points into the buffer: at a line, and at a column
    /// of it or just past its end.
    pub open spec fn holds(&self, cursor: Cursor) -> bool {
        cursor.row < self.rows().len() && cursor.col <= self.rows()[cursor.row as int].len()
    }

    pub fn new(lines: Vec<String>, path: String) -> (b: Self)
        ensures
            b.lines == lines,
            b.path == path,
            b.version == 1,
    {
        Self { lines, path, version: 1 }
    }

    /// The whole document, its lines joined by line feeds.
    pub fn text(&self) -> (t: String)
        ensures
            t@ == joined(self.rows()),
    {
        let mut t = String::new();
        let mut i: usize = 0;
        while i < self.lines.len()
            invariant
                i <= self.lines@.len(),
                t@ == joined(self.rows().subrange(0, i as int)),
            decreases self.lines@.len() - i,
        {
            let ghost before = self.rows().subrange(0, i as int);
            let ghost after = self.rows().subrange(0, i + 1);
            assert(after.drop_last() =~= before);
            assert(after.last() == self.lines@[i as int]@);
            if i > 0 {
                push_char(&mut t, '\n');
            }
            t.append(self.lines[i].as_str());
            assert(t@ =~= joined(after)) by {
                if i == 0 {
                    assert(before.len() == 0);
                    assert(after[0] == after.last());
                }
            }
            i = i + 1;
        }
        assert(self.rows().subrange(0, i as int) =~= self.rows());
        t
    }

    /// The line shown on screen row `row` under `scroll`, if there is one.
    pub fn line_at_scroll(&self, scroll: &ScrollOffset, row: usize) -> (line: Option<&str>)
        ensures
            match line {
                Some(s) => row + scroll.vertical < self.rows().len() && s@ == self.rows()[row
                    + scroll.vertical],
                None => row + scroll.vertical >= self.rows().len(),
            },
    {
        if row < self.lines.len() && scroll.vertical < self.lines.len() - row {
            Some(self.lines[row + scroll.vertical].as_str())
        } else {
            None
        }
    }

    /// Replaces lines and path; the version stays.
    pub fn set(&mut self, lines: Vec<String>, path: String)
        ensures
            final(self).lines == lines,
            final(self).path == path,
            final(self).version == old(self).version,
    {
        self.lines = lines;
        self.path = path;
    }

    pub fn len(&self) -> (n: usize)
        ensures
            n == self.rows().len(),
    {
        self.lines.len()
    }

    pub fn line(&self, row: usize) -> (line: Option<&str>)
        ensures
            match line {
                Some(s) => row < self.rows().len() && s@ == self.rows()[row as int],
                None => row >= self.rows().len(),
            },
    {
        if row < self.lines.len() {
            Some(self.lines[row].as_str())
        } else {
            None
        }
    }

    /// The number of characters in line `row`; 0 where there is no such line.
    pub fn line_len(&self, row: usize) -> (n: usize)
        ensures
            row < self.rows().len() ==> n == self.rows()[row as int].len(),
            row >= self.rows().len() ==> n == 0,
    {
        if row < self.lines.len() {
            self.lines[row].as_str().unicode_len()
        } else {
            0
        }
    }

    fn bump_version(&mut self)
        ensures
            final(self).lines == old(self).lines,
            final(self).path == old(self).path,
            final(self).version == next_version(old(self).version),
    {
        if self.version < u32::MAX {
            self.version = self.version + 1;
        }
    }

    /// Inserts `c` at character column `col` of line `row` and says whether
    /// there was such a line.
    pub fn insert_char(&mut self, row: usize, col: usize, c: char) -> (done: bool)
        ensures
            done == (row < old(self).rows().len()),
            final(self).rows() == rows_after_insert(old(self).rows(), row as int, col as int, c),
            final(self).path == old(self).path,
            final(self).version == if done {
                next_version(old(self).version)
            } else {
                old(self).version
            },
    {
        if row >= self.lines.len() {
            return false;
        }
        let n = self.lines[row].as_str().unicode_len();
        let at = if col <= n {
            col
        } else {
            n
        };
        let line = insert_char_at(self.lines[row].as_str(), at, c);
        self.lines.set(row, line);
        self.bump_version();
        assert(self.rows() =~= rows_after_insert(old(self).rows(), row as int, col as int, c));
        true
    }

    /// Backspace at (`row`, `col`): at column 0 of a line that has a
    /// predecessor, joins the two; elsewhere removes the character before
    /// `col`. Returns where the cursor belongs afterwards.
    pub fn delete_char(&mut self, row: usize, col: usize) -> (cursor: Cursor)
        ensures
            final(self).rows() == rows_after_delete(old(self).rows(), row as int, col as int),
            (cursor.row as int, cursor.col as int) == cursor_after_delete(
                old(self).rows(),
                row as int,
                col as int,
            ),
            final(self).path == old(self).path,
            final(self).version == if joins_lines(old(self).rows(), row as int, col as int)
                || removes_char(old(self).rows(), row as int, col as int) {
                next_version(old(self).version)
            } else {
                old(self).version
            },
    {
        if col == 0 {
            if row > 0 && row < self.lines.len() {
                let join_col = self.lines[row - 1].as_str().unicode_len();
                let merged = concat_lines(self.lines[row - 1].as_str(), self.lines[row].as_str());
                self.lines.set(row - 1, merged);
                let _ = self.lines.remove(row);
                self.bump_version();
                assert(self.rows() =~= rows_after_delete(
                    old(self).rows(),
                    row as int,
                    col as int,
                ));
                return Cursor { row: row - 1, col: join_col };
            }
            return Cursor { row, col };
        }
        if row < self.lines.len() {
            let n = self.lines[row].as_str().unicode_len();
            if col <= n {
                let line = remove_char_at(self.lines[row].as_str(), col - 1);
                self.lines.set(row, line);
                self.bump_version();
                assert(self.rows() =~= rows_after_delete(
                    old(self).rows(),
                    row as int,
                    col as int,
                ));
                return Cursor { row, col: col - 1 };
            }
        }
        Cursor { row, col }
    }

    /// Splits line `row` at column `col` into two lines and says whether
    /// there was such a line.
    pub fn insert_newline(&mut self, row: usize, col: usize) -> (done: bool)
        ensures
            done == (row < old(self).rows().len()),
            final(self).rows() == rows_after_newline(old(self).rows(), row as int, col as int),
            final(self).path == old(self).path,
            final(self).version == if done {
                next_version(old(self).version)
            } else {
                old(self).version
            },
    {
        if row >= self.lines.len() {
            return false;
        }
        let chars = to_chars(self.lines[row].as_str());
        let n = chars.len();
        let at = if col <= n {
            col
        } else {
            n
        };
        let head = from_chars(&chars, 0, at);
        let tail = from_chars(&chars, at, n);
        self.lines.set(row, head);
        self.lines.insert(row + 1, tail);
        self.bump_version();
        assert(self.rows() =~= rows_after_newline(old(self).rows(), row as int, col as int));
        true
    }

    /// Inserts `width` spaces at column `col` of line `row` and says whether
    /// there was such a line.
    pub fn insert_tab(&mut self, row: usize, col: usize, width: usize) -> (done: bool)
        ensures
            done == (row < old(self).rows().len()),
            final(self).rows() == rows_after_tab(
                old(self).rows(),
                row as int,
                col as int,
                width as int,
            ),
            final(self).path == old(self).path,
            final(self).version == if done {
                next_version(old(self).version)
            } else {
                old(self).version
            },
    {
        if row >= self.lines.len() {
            return false;
        }
        let chars = to_chars(self.lines[row].as_str());
        let n = chars.len();
        let at = if col <= n {
            col
        } else {
            n
        };
        let mut line = from_chars(&chars, 0, at);
        let mut i: usize = 0;
        while i < width
            invariant
                i <= width,
                at <= n == chars@.len(),
                line@ == chars@.subrange(0, at as int) + spaces(i as int),
            decreases width - i,
        {
            push_char(&mut line, ' ');
            i = i + 1;
            assert(line@ =~= chars@.subrange(0, at as int) + spaces(i as int));
        }
        let tail = from_chars(&chars, at, n);
        line.append(tail.as_str());
        self.lines.set(row, line);
        self.bump_version();
        assert(self.rows() =~= rows_after_tab(
            old(self).rows(),
            row as int,
            col as int,
            width as int,
        ));
        true
    }

    /// `cursor` moved to the nearest position inside the buffer: the row
    /// into `[0, len - 1]`, then the column into `[0, line length]`.
    pub fn clamp_cursor(&self, cursor: Cursor) -> (c: Cursor)
        ensures
            self.rows().len() == 0 ==> c.row == 0 && c.col == 0,
            self.rows().len() > 0 ==> self.holds(c),
            self.rows().len() > 0 ==> c.row == if cursor.row < self.rows().len() {
                cursor.row as int
            } else {
                self.rows().len() - 1
            },
            self.rows().len() > 0 ==> c.col == clamped_col(
                self.rows()[c.row as int],
                cursor.col as int,
            ),
    {
        let n = self.lines.len();
        if n == 0 {
            return Cursor { row: 0, col: 0 };
        }
        let row = if cursor.row < n {
            cursor.row
        } else {
            n - 1
        };
        let len = self.lines[row].as_str().unicode_len();
        let col = if cursor.col <= len {
            cursor.col
        } else {
            len
        };
        Cursor { row, col }
    }
}

/// The columns at the left of a view that the gutter takes.
pub const GUTTER_COLS: u16 = 6;

/// The columns of a view that show text.
pub open spec fn usable_cols(size: Size) -> int {
    if size.cols > GUTTER_COLS {
        size.cols - GUTTER_COLS
    } else {
        0
    }
}

/// Whether the cursor row is one of the rows that the view shows.
pub open spec fn in_band(cursor: Cursor, scroll: ScrollOffset, size: Size) -> bool {
    scroll.vertical <= cursor.row < scroll.vertical + size.rows
}

/// Cursor and scroll after a move up: one row up unless at the top; the
/// view scrolls by one row when the cursor has left it.
pub open spec fn after_up(cursor: Cursor, scroll: ScrollOffset) -> (Cursor, ScrollOffset) {
    let row = if cursor.row > 0 {
        (cursor.row - 1) as usize
    } else {
        cursor.row
    };
    let vertical = if scroll.vertical > 0 && row < scroll.vertical {
        (scroll.vertical - 1) as usize
    } else {
        scroll.vertical
    };
    (Cursor { row, col: cursor.col }, ScrollOffset { horizontal: scroll.horizontal, vertical })
}

/// Cursor and scroll after a move down in a buffer of `line_count` lines:
/// one row down unless on the last line; the view scrolls by one row when
/// the cursor has left it.
pub open spec fn after_down(cursor: Cursor, scroll: ScrollOffset, size: Size, line_count: int) -> (
    Cursor,
    ScrollOffset,
) {
    let row = if cursor.row + 1 < line_count {
        (cursor.row + 1) as usize
    } else {
        cursor.row
    };
    let vertical = if row >= size.rows + scroll.vertical && scroll.vertical < usize::MAX {
        (scroll.vertical + 1) as usize
    } else {
        scroll.vertical
    };
    (Cursor { row, col: cursor.col }, ScrollOffset { horizontal: scroll.horizontal, vertical })
}

/// Cursor and scroll after a move left in a line of `line_len` characters:
/// a column past the end is first brought back to the end.
pub open spec fn after_left(cursor: Cursor, scroll: ScrollOffset, line_len: int) -> (
    Cursor,
    ScrollOffset,
) {
    let from = if cursor.col >= line_len {
        line_len as usize
    } else {
        cursor.col
    };
    let col = if from > 0 {
        (from - 1) as usize
    } else {
        from
    };
    let horizontal = if scroll.horizontal > 0 && col < scroll.horizontal {
        (scroll.horizontal - 1) as usize
    } else {
        scroll.horizontal
    };
    (Cursor { row: cursor.row, col }, ScrollOffset { horizontal, vertical: scroll.vertical })
}

/// Cursor and scroll after a move right in a line of `line_len` characters:
/// the cursor may rest just past the last character, not further.
pub open spec fn after_right(cursor: Cursor, scroll: ScrollOffset, size: Size, line_len: int) -> (
    Cursor,
    ScrollOffset,
) {
    let col = if cursor.col < line_len {
        (cursor.col + 1) as usize
    } else {
        cursor.col
    };
    let horizontal = if col >= scroll.horizontal + usable_cols(size) && scroll.horizontal
        < usize::MAX {
        (scroll.horizontal + 1) as usize
    } else {
        scroll.horizontal
    };
    (Cursor { row: cursor.row, col }, ScrollOffset { horizontal, vertical: scroll.vertical })
}

/// Whether `c` is white space.
pub open spec fn is_blank(c: char) -> bool {
    let v = c as u32;
    v == 0x20 || (0x09 <= v <= 0x0d) || v == 0x85 || v == 0xa0 || v == 0x1680 || (0x2000 <= v
        <= 0x200a) || v == 0x2028 || v == 0x2029 || v == 0x202f || v == 0x205f || v == 0x3000
}

/// The number of white-space characters at the start of `line`.
pub open spec fn leading_blanks(line: Seq<char>) -> int
    decreases line.len(),
{
    if line.len() == 0 || !is_blank(line[0]) {
        0
    } else {
        1 + leading_blanks(line.drop_first())
    }
}

/// The column of the first character of `line` that is not white space, or
/// 0 where there is none.
pub open spec fn first_word_col(line: Seq<char>) -> int {
    if leading_blanks(line) < line.len() {
        leading_blanks(line)
    } else {
        0
    }
}

/// Whether `c` is white space.
pub fn blank(c: char) -> (b: bool)
    ensures
        b == is_blank(c),
{
    let v = c as u32;
    v == 0x20 || (0x09 <= v && v <= 0x0d) || v == 0x85 || v == 0xa0 || v == 0x1680 || (0x2000 <= v
        && v <= 0x200a) || v == 0x2028 || v == 0x2029 || v == 0x202f || v == 0x205f || v == 0x3000
}

/// The column of the first character of `line` that is not white space, or
/// 0 where there is none.
pub fn first_word(line: &str) -> (col: usize)
    ensures
        col == first_word_col(line@),
{
    let n = line.unicode_len();
    let mut i: usize = 0;
    assert(line@.subrange(0, n as int) =~= line@);
    while i < n
        invariant
            n == line@.len(),
            i <= n,
            leading_blanks(line@) == i + leading_blanks(line@.subrange(i as int, n as int)),
        decreases n - i,
    {
        let ghost rest = line@.subrange(i as int, n as int);
        assert(rest[0] == line@[i as int]);
        assert(rest.drop_first() =~= line@.subrange(i + 1, n as int));
        if !blank(line.get_char(i)) {
            return i;
        }
        i = i + 1;
    }
    0
}

/// A cursor, scroll and mode context on one buffer.
#[derive(Clone, Debug)]
pub struct BufferView {
    pub id: ViewId,
    pub buffer: BufferId,
    pub cursor: Cursor,
    pub scroll: ScrollOffset,
    pub selection: Option<Selection>,
    pub size: Size,
    pub mode: EditorMode,
    pub highlighter: Highlighter,
}

impl BufferView {
    /// Whether `other` differs from `self` in cursor and scroll at most.
    pub open spec fn same_but_frame(&self, other: &BufferView) -> bool {
        &&& self.id == other.id
        &&& self.buffer == other.buffer
        &&& self.selection == other.selection
        &&& self.size == other.size
        &&& self.mode == other.mode
        &&& self.highlighter == other.highlighter
    }

    /// Whether `other` differs from `self` in the mode at most.
    pub open spec fn same_but_mode(&self, other: &BufferView) -> bool {
        &&& self.id == other.id
        &&& self.buffer == other.buffer
        &&& self.cursor == other.cursor
        &&& self.scroll == other.scroll
        &&& self.selection == other.selection
        &&& self.size == other.size
        &&& self.highlighter == other.highlighter
    }

    /// Whether `other` differs from `self` in the highlighter at most.
    pub open spec fn same_but_highlighter(&self, other: &BufferView) -> bool {
        &&& self.id == other.id
        &&& self.buffer == other.buffer
        &&& self.cursor == other.cursor
        &&& self.scroll == other.scroll
        &&& self.selection == other.selection
        &&& self.size == other.size
        &&& self.mode == other.mode
    }

    /// A view in normal mode at the start of `buffer`, with no rules and no
    /// tokens.
    pub fn new(id: ViewId, buffer: BufferId, size: Size) -> (v: Self)
        ensures
            v.id == id,
            v.buffer == buffer,
            v.size == size,
            v.cursor == (Cursor { row: 0, col: 0 }),
            v.scroll == (ScrollOffset { horizontal: 0, vertical: 0 }),
            v.selection is None,
            v.mode == EditorMode::Normal,
            v.highlighter.rules@.len() == 0,
            v.highlighter.current_filetype@.len() == 0,
            palette_view(v.highlighter.colors@) == default_palette(),
            v.highlighter.tokens@.len() == 0,
            v.highlighter.cache@ == Map::<u64, Vec<crate::types::Token>>::empty(),
    {
        let highlighter = Highlighter::new(Vec::new());
        Self {
            id,
            buffer,
            size,
            cursor: Cursor { row: 0, col: 0 },
            scroll: ScrollOffset { horizontal: 0, vertical: 0 },
            selection: None,
            mode: EditorMode::Normal,
            highlighter,
        }
    }

    /// The first row shown.
    pub fn visible_top(&self) -> (row: usize)
        ensures
            row == self.scroll.vertical,
    {
        self.scroll.vertical
    }

    /// The last row shown; it stops at the largest row number.
    pub fn visible_bottom(&self) -> (row: usize)
        ensures
            row == if self.size.rows == 0 {
                self.scroll.vertical as int
            } else if self.scroll.vertical + self.size.rows - 1 <= usize::MAX {
                self.scroll.vertical + self.size.rows - 1
            } else {
                usize::MAX as int
            },
    {
        let extra: usize = if self.size.rows == 0 {
            0
        } else {
            (self.size.rows - 1) as usize
        };
        if extra > usize::MAX - self.scroll.vertical {
            usize::MAX
        } else {
            self.scroll.vertical + extra
        }
    }

    pub fn move_up(&mut self)
        ensures
            (final(self).cursor, final(self).scroll) == after_up(old(self).cursor, old(self).scroll),
            final(self).same_but_frame(old(self)),
    {
        if self.cursor.row > 0 {
            self.cursor.row = self.cursor.row - 1;
        }
        if self.scroll.vertical > 0 && self.cursor.row < self.scroll.vertical {
            self.scroll.vertical = self.scroll.vertical - 1;
        }
    }

    pub fn move_down(&mut self, buffer: &Buffer)
        ensures
            (final(self).cursor, final(self).scroll) == after_down(
                old(self).cursor,
                old(self).scroll,
                old(self).size,
                buffer.rows().len() as int,
            ),
            final(self).same_but_frame(old(self)),
    {
        let n = buffer.len();
        if self.cursor.row < n && self.cursor.row + 1 < n {
            self.cursor.row = self.cursor.row + 1;
        }
        if self.cursor.row >= self.scroll.vertical && self.cursor.row - self.scroll.vertical
            >= self.size.rows as usize && self.scroll.vertical < usize::MAX {
            self.scroll.vertical = self.scroll.vertical + 1;
        }
    }

    /// Moves the cursor one column left in its line; where the buffer has
    /// no such line, nothing moves.
    pub fn move_left(&mut self, buffer: &Buffer)
        ensures
            old(self).cursor.row < buffer.rows().len() ==> (final(self).cursor, final(self).scroll)
                == after_left(
                old(self).cursor,
                old(self).scroll,
                buffer.rows()[old(self).cursor.row as int].len() as int,
            ),
            old(self).cursor.row >= buffer.rows().len() ==> final(self).cursor == old(self).cursor
                && final(self).scroll == old(self).scroll,
            final(self).same_but_frame(old(self)),
    {
        if self.cursor.row >= buffer.len() {
            return ;
        }
        let len = buffer.line_len(self.cursor.row);
        if self.cursor.col >= len {
            self.cursor.col = len;
        }
        if self.cursor.col > 0 {
            self.cursor.col = self.cursor.col - 1;
        }
        if self.scroll.horizontal > 0 && self.cursor.col < self.scroll.horizontal {
            self.scroll.horizontal = self.scroll.horizontal - 1;
        }
    }

    /// Moves the cursor one column right in its line; where the buffer has
    /// no such line, nothing moves.
    pub fn move_right(&mut self, buffer: &Buffer)
        ensures
            old(self).cursor.row < buffer.rows().len() ==> (final(self).cursor, final(self).scroll)
                == after_right(
                old(self).cursor,
                old(self).scroll,
                old(self).size,
                buffer.rows()[old(self).cursor.row as int].len() as int,
            ),
            old(self).cursor.row >= buffer.rows().len() ==> final(self).cursor == old(self).cursor
                && final(self).scroll == old(self).scroll,
            final(self).same_but_frame(old(self)),
    {
        if self.cursor.row >= buffer.len() {
            return ;
        }
        let len = buffer.line_len(self.cursor.row);
        if self.cursor.col < len {
            self.cursor.col = self.cursor.col + 1;
        }
        let usable: usize = if self.size.cols > GUTTER_COLS {
            (self.size.cols - GUTTER_COLS) as usize
        } else {
            0
        };
        if self.cursor.col >= self.scroll.horizontal && self.cursor.col - self.scroll.horizontal
            >= usable && self.scroll.horizontal < usize::MAX {
            self.scroll.horizontal = self.scroll.horizontal + 1;
        }
    }

    /// Jumps to `location` in `buffer`: the top (row 0, nothing scrolled),
    /// the bottom (last row, shown on the last row of the view), the first
    /// word of the line, or the end of the line. Jumps by word change
    /// nothing.
    pub fn jump_to(&mut self, location: &BufferLocation, buffer: &Buffer)
        ensures
            final(self).same_but_frame(old(self)),
            final(self).scroll.horizontal == old(self).scroll.horizontal,
            match *location {
                BufferLocation::Top => {
                    &&& final(self).cursor.row == 0
                    &&& final(self).cursor.col == old(self).cursor.col
                    &&& final(self).scroll.vertical == 0
                },
                BufferLocation::Bottom => if buffer.rows().len() > 0 {
                    &&& final(self).cursor.row == buffer.rows().len() - 1
                    &&& final(self).cursor.col == old(self).cursor.col
                    &&& final(self).scroll.vertical == if buffer.rows().len() > old(self).size.rows {
                        buffer.rows().len() - old(self).size.rows
                    } else {
                        0
                    }
                } else {
                    final(self).cursor == old(self).cursor && final(self).scroll == old(self).scroll
                },
                BufferLocation::StartLine => {
                    &&& final(self).scroll == old(self).scroll
                    &&& final(self).cursor.row == old(self).cursor.row
                    &&& final(self).cursor.col == if old(self).cursor.row < buffer.rows().len() {
                        first_word_col(buffer.rows()[old(self).cursor.row as int])
                    } else {
                        old(self).cursor.col as int
                    }
                },
                BufferLocation::EndLine => {
                    &&& final(self).scroll == old(self).scroll
                    &&& final(self).cursor.row == old(self).cursor.row
                    &&& final(self).cursor.col == if old(self).cursor.row < buffer.rows().len() {
                        buffer.rows()[old(self).cursor.row as int].len() as int
                    } else {
                        old(self).cursor.col as int
                    }
                },
                BufferLocation::PreviousWord | BufferLocation::NextWord => final(self).cursor
                    == old(self).cursor && final(self).scroll == old(self).scroll,
            },
    {
        match location {
            BufferLocation::Top => {
                self.cursor.row = 0;
                self.scroll.vertical = 0;
            },
            BufferLocation::Bottom => {
                let n = buffer.len();
                if n > 0 {
                    self.cursor.row = n - 1;
                    let rows = self.size.rows as usize;
                    self.scroll.vertical = if n > rows {
                        n - rows
                    } else {
                        0
                    };
                }
            },
            BufferLocation::StartLine => {
                match buffer.line(self.cursor.row) {
                    Some(line) => {
                        self.cursor.col = first_word(line);
                    },
                    None => {},
                }
            },
            BufferLocation::EndLine => {
                if self.cursor.row < buffer.len() {
                    self.cursor.col = buffer.line_len(self.cursor.row);
                }
            },
            BufferLocation::PreviousWord => {},
            BufferLocation::NextWord => {},
        }
    }
}

/// A cursor that is shown stays shown when it moves down, and the view
/// scrolls by one row exactly when the cursor leaves its last row.
pub proof fn lemma_down_keeps_band(cursor: Cursor, scroll: ScrollOffset, size: Size, line_count: int)
    requires
        in_band(cursor, scroll, size),
        line_count <= usize::MAX,
    ensures
        in_band(
            after_down(cursor, scroll, size, line_count).0,
            after_down(cursor, scroll, size, line_count).1,
            size,
        ),
        after_down(cursor, scroll, size, line_count).1.vertical == scroll.vertical || after_down(
            cursor,
            scroll,
            size,
            line_count,
        ).1.vertical == scroll.vertical + 1,
        after_down(cursor, scroll, size, line_count).1.vertical == scroll.vertical + 1 <==> (
        cursor.row + 1 < line_count && cursor.row == scroll.vertical + size.rows - 1),
{
}

/// A cursor that is shown stays shown when it moves up, and the view
/// scrolls by one row exactly when the cursor leaves its first row.
pub proof fn lemma_up_keeps_band(cursor: Cursor, scroll: ScrollOffset, size: Size)
    requires
        in_band(cursor, scroll, size),
    ensures
        in_band(after_up(cursor, scroll).0, after_up(cursor, scroll).1, size),
        after_up(cursor, scroll).1.vertical == scroll.vertical || after_up(
            cursor,
            scroll,
        ).1.vertical == scroll.vertical - 1,
        after_up(cursor, scroll).1.vertical == scroll.vertical - 1 <==> (cursor.row > 0
            && cursor.row == scroll.vertical),
{
}

} // verus!
