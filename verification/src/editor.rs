//! Action dispatch: every editor action is applied to the active view and
//! its buffer, each text edit together with the matching shift of the
//! view's tokens. What crosses into file I/O or the life of the process is
//! handed back to the caller as an event.

use vstd::prelude::*;
use vstd::string::*;

use crate::buffer::{
    after_down, after_left, after_right, after_up, clamped_col, cursor_after_delete, joins_lines,
    next_version, removes_char, rows_after_delete, rows_after_insert, rows_after_newline,
    rows_after_tab, Buffer, BufferView,
};
use crate::highlighter::{lemma_shift_there_and_back, with_row_shifted};
use crate::text::{from_chars, to_chars};
use crate::types::{
    token_views, BufferId, Cursor, Direction, EditorAction, EditorEvent, EditorMode, ScrollOffset,
    Size, Token, ViewId,
};

verus! {

/// The lines of `text`: it is cut at every line feed, carriage return, and
/// carriage return followed by line feed. A text without any is one line.
pub open spec fn lines_of(text: Seq<char>) -> Seq<Seq<char>>
    decreases text.len(),
{
    if text.len() == 0 {
        seq![Seq::empty()]
    } else {
        let rest = lines_of(text.drop_first());
        if text[0] == '\r' && text.len() > 1 && text[1] == '\n' {
            rest
        } else if text[0] == '\n' || text[0] == '\r' {
            seq![Seq::empty()] + rest
        } else {
            rest.update(0, seq![text[0]] + rest[0])
        }
    }
}

/// A text has at least one line.
pub proof fn lemma_lines_of_nonempty(text: Seq<char>)
    ensures
        lines_of(text).len() > 0,
    decreases text.len(),
{
    if text.len() > 0 {
        lemma_lines_of_nonempty(text.drop_first());
    }
}

/// The texts of `lines`.
pub open spec fn texts(lines: Seq<String>) -> Seq<Seq<char>> {
    Seq::new(lines.len(), |i: int| lines[i]@)
}

/// Cuts `content` into lines, taking any of the three line terminators.
pub fn split_lines(content: &str) -> (lines: Vec<String>)
    ensures
        lines@.len() > 0,
        texts(lines@) == lines_of(content@),
{
    let chars = to_chars(content);
    let n = chars.len();
    let mut lines: Vec<String> = Vec::new();
    let mut start: usize = 0;
    let mut i: usize = 0;
    let ghost text = content@;
    proof {
        lemma_lines_of_nonempty(text);
        assert(text.subrange(0, n as int) =~= text);
        let r = lines_of(text);
        assert(text.subrange(0, 0) + r[0] =~= r[0]);
        assert(texts(lines@) + r.update(0, text.subrange(0, 0) + r[0]) =~= r);
    }
    while i < n
        invariant
            n == chars@.len(),
            chars@ == text,
            start <= i <= n,
            lines_of(text) == texts(lines@) + lines_of(text.subrange(i as int, n as int)).update(
                0,
                text.subrange(start as int, i as int) + lines_of(
                    text.subrange(i as int, n as int),
                )[0],
            ),
        decreases n - i,
    {
        let ghost rest = text.subrange(i as int, n as int);
        let ghost after = text.subrange(i + 1, n as int);
        let ghost done = texts(lines@);
        let ghost cur = text.subrange(start as int, i as int);
        proof {
            assert(rest.drop_first() =~= after);
            assert(rest[0] == text[i as int]);
            lemma_lines_of_nonempty(after);
            lemma_lines_of_nonempty(rest);
        }
        let c = chars[i];
        if c == '\r' && i + 1 < n && chars[i + 1] == '\n' {
            let ghost after2 = text.subrange(i + 2, n as int);
            proof {
                assert(rest[1] == text[i + 1]);
                assert(after[0] == text[i + 1]);
                assert(after.drop_first() =~= after2);
                lemma_lines_of_nonempty(after2);
                assert(lines_of(rest) == lines_of(after));
                assert(lines_of(after) =~= seq![Seq::<char>::empty()] + lines_of(after2));
            }
            let line = from_chars(&chars, start, i);
            lines.push(line);
            i = i + 2;
            start = i;
            proof {
                let r2 = lines_of(after2);
                assert(text.subrange(start as int, i as int) + r2[0] =~= r2[0]);
                assert(texts(lines@) =~= done + seq![cur]);
                assert(lines_of(text) =~= texts(lines@) + r2.update(
                    0,
                    text.subrange(start as int, i as int) + r2[0],
                ));
            }
        } else if c == '\n' || c == '\r' {
            let line = from_chars(&chars, start, i);
            lines.push(line);
            i = i + 1;
            start = i;
            proof {
                let r1 = lines_of(after);
                assert(lines_of(rest) =~= seq![Seq::<char>::empty()] + r1);
                assert(text.subrange(start as int, i as int) + r1[0] =~= r1[0]);
                assert(texts(lines@) =~= done + seq![cur]);
                assert(lines_of(text) =~= texts(lines@) + r1.update(
                    0,
                    text.subrange(start as int, i as int) + r1[0],
                ));
            }
        } else {
            i = i + 1;
            proof {
                let r1 = lines_of(after);
                assert(lines_of(rest) =~= r1.update(0, seq![c] + r1[0]));
                assert(text.subrange(start as int, i as int) =~= cur + seq![c]);
                assert(cur + (seq![c] + r1[0]) =~= (cur + seq![c]) + r1[0]);
                assert(lines_of(text) =~= texts(lines@) + r1.update(
                    0,
                    text.subrange(start as int, i as int) + r1[0],
                ));
            }
        }
    }
    let line = from_chars(&chars, start, n);
    let ghost done = texts(lines@);
    proof {
        assert(text.subrange(n as int, n as int) =~= Seq::<char>::empty());
        let r = lines_of(Seq::<char>::empty());
        assert(r =~= seq![Seq::<char>::empty()]);
        assert(text.subrange(start as int, n as int) + r[0] =~= text.subrange(
            start as int,
            n as int,
        ));
    }
    lines.push(line);
    assert(texts(lines@) =~= done + seq![text.subrange(start as int, n as int)]);
    lines
}

/// What inserting `c` at the cursor makes of a view `v0` and its buffer
/// `b0`: the character goes in at the cursor column, brought back to the end
/// of the line if it was past it; the tokens of the row from that column on
/// move one column right; the cursor moves one column right. Where the
/// buffer has no such row, nothing changes.
pub open spec fn char_inserted(v0: BufferView, b0: Buffer, v1: BufferView, b1: Buffer, c: char) -> bool {
    let row = v0.cursor.row as int;
    if row < b0.rows().len() {
        let at = clamped_col(b0.rows()[row], v0.cursor.col as int);
        &&& b1.rows() == rows_after_insert(b0.rows(), row, v0.cursor.col as int, c)
        &&& b1.path == b0.path
        &&& b1.version == next_version(b0.version)
        &&& v1.cursor.row == v0.cursor.row
        &&& v1.cursor.col == at + 1
        &&& v1.scroll == after_right(
            Cursor { row: v0.cursor.row, col: at as usize },
            v0.scroll,
            v0.size,
            b1.rows()[row].len() as int,
        ).1
        &&& v1.highlighter.table() == with_row_shifted(v0.highlighter.table(), row, at, 1)
        &&& v1.highlighter.cache@ == Map::<u64, Vec<Token>>::empty()
        &&& v1.highlighter.same_setup(&v0.highlighter)
        &&& same_identity(v0, v1)
    } else {
        v1 == v0 && b1 == b0
    }
}

/// Whether two views agree in all but cursor, scroll and highlighter.
pub open spec fn same_identity(v0: BufferView, v1: BufferView) -> bool {
    &&& v1.id == v0.id
    &&& v1.buffer == v0.buffer
    &&& v1.selection == v0.selection
    &&& v1.size == v0.size
    &&& v1.mode == v0.mode
}

/// What a backspace at the cursor makes of a view and its buffer: the
/// buffer loses a line break or a character, the cursor goes to the join
/// point or one column left, the view follows the cursor by one row or
/// column; the tokens of the cursor row from the cursor column on move one
/// column left and the cache is emptied, whatever was removed.
pub open spec fn char_deleted(v0: BufferView, b0: Buffer, v1: BufferView, b1: Buffer) -> bool {
    let row = v0.cursor.row as int;
    let col = v0.cursor.col as int;
    &&& b1.rows() == rows_after_delete(b0.rows(), row, col)
    &&& b1.path == b0.path
    &&& b1.version == if joins_lines(b0.rows(), row, col) || removes_char(b0.rows(), row, col) {
        next_version(b0.version)
    } else {
        b0.version
    }
    &&& (v1.cursor.row as int, v1.cursor.col as int) == cursor_after_delete(b0.rows(), row, col)
    &&& v1.scroll == if joins_lines(b0.rows(), row, col) {
        after_up(v0.cursor, v0.scroll).1
    } else if removes_char(b0.rows(), row, col) {
        after_left(v0.cursor, v0.scroll, b0.rows()[row].len() as int).1
    } else {
        v0.scroll
    }
    &&& v1.highlighter.table() == with_row_shifted(v0.highlighter.table(), row, col, -1)
    &&& v1.highlighter.cache@ == Map::<u64, Vec<Token>>::empty()
    &&& v1.highlighter.same_setup(&v0.highlighter)
    &&& same_identity(v0, v1)
}

/// What a line break at the cursor makes of a view and its buffer: the line
/// is split at the cursor column, the cursor goes to the start of the new
/// line, and the view scrolls down by one row if the cursor has left it.
/// Where the buffer has no such row, nothing changes.
pub open spec fn newline_inserted(v0: BufferView, b0: Buffer, v1: BufferView, b1: Buffer) -> bool {
    let row = v0.cursor.row as int;
    if row < b0.rows().len() {
        &&& b1.rows() == rows_after_newline(b0.rows(), row, v0.cursor.col as int)
        &&& b1.path == b0.path
        &&& b1.version == next_version(b0.version)
        &&& v1.cursor.row == row + 1
        &&& v1.cursor.col == 0
        &&& v1.scroll.horizontal == 0
        &&& v1.scroll.vertical == if row + 1 >= v0.size.rows + v0.scroll.vertical
            && v0.scroll.vertical < usize::MAX {
            v0.scroll.vertical + 1
        } else {
            v0.scroll.vertical as int
        }
        &&& v1.highlighter == v0.highlighter
        &&& same_identity(v0, v1)
    } else {
        v1 == v0 && b1 == b0
    }
}

/// What a tab of `width` columns at the cursor makes of a view and its
/// buffer: `width` spaces go in at the cursor column, the tokens of the row
/// from that column on and the cursor move `width` columns right. Where the
/// buffer has no such row, nothing changes.
pub open spec fn tab_inserted(v0: BufferView, b0: Buffer, v1: BufferView, b1: Buffer, width: int) -> bool {
    let row = v0.cursor.row as int;
    if row < b0.rows().len() {
        let at = clamped_col(b0.rows()[row], v0.cursor.col as int);
        &&& b1.rows() == rows_after_tab(b0.rows(), row, v0.cursor.col as int, width)
        &&& b1.path == b0.path
        &&& b1.version == next_version(b0.version)
        &&& v1.cursor.row == v0.cursor.row
        &&& v1.cursor.col == at + width
        &&& v1.scroll == v0.scroll
        &&& v1.highlighter.table() == with_row_shifted(v0.highlighter.table(), row, at, width)
        &&& v1.highlighter.cache@ == Map::<u64, Vec<Token>>::empty()
        &&& v1.highlighter.same_setup(&v0.highlighter)
        &&& same_identity(v0, v1)
    } else {
        v1 == v0 && b1 == b0
    }
}

/// What a move of the cursor makes of a view.
pub open spec fn cursor_moved(v0: BufferView, b0: Buffer, v1: BufferView, dir: Direction) -> bool {
    let row = v0.cursor.row as int;
    &&& v1.same_but_frame(&v0)
    &&& (v1.cursor, v1.scroll) == match dir {
        Direction::Up => after_up(v0.cursor, v0.scroll),
        Direction::Down => after_down(v0.cursor, v0.scroll, v0.size, b0.rows().len() as int),
        Direction::Left => if row < b0.rows().len() {
            after_left(v0.cursor, v0.scroll, b0.rows()[row].len() as int)
        } else {
            (v0.cursor, v0.scroll)
        },
        Direction::Right => if row < b0.rows().len() {
            after_right(v0.cursor, v0.scroll, v0.size, b0.rows()[row].len() as int)
        } else {
            (v0.cursor, v0.scroll)
        },
    }
}

/// The open buffers and views, and which view is active.
pub struct Editor {
    /// The buffer with id `i` stands at position `i`.
    pub buffers: Vec<Buffer>,
    /// The view with id `i` stands at position `i`.
    pub views: Vec<BufferView>,
    pub active_view: ViewId,
}

impl Editor {
    /// The position of the active view, if there is one.
    pub open spec fn view_index(&self) -> Option<int> {
        if self.active_view.0 < self.views@.len() {
            Some(self.active_view.0 as int)
        } else {
            None
        }
    }

    /// The position of the buffer of the active view, if both exist.
    pub open spec fn buffer_index(&self) -> Option<int> {
        match self.view_index() {
            Some(v) => if self.views@[v].buffer.0 < self.buffers@.len() {
                Some(self.views@[v].buffer.0 as int)
            } else {
                None
            },
            None => None,
        }
    }

    /// Whether `next` differs from `self` in view `v` and buffer `b` at
    /// most.
    pub open spec fn differs_at(&self, next: &Editor, v: int, b: int) -> bool {
        &&& next.active_view == self.active_view
        &&& next.views@.len() == self.views@.len()
        &&& next.buffers@.len() == self.buffers@.len()
        &&& forall|i: int| 0 <= i < self.views@.len() && i != v ==> next.views@[i] == self.views@[i]
        &&& forall|i: int|
            0 <= i < self.buffers@.len() && i != b ==> next.buffers@[i] == self.buffers@[i]
    }

    /// An editor with no buffer and no view.
    pub fn new() -> (e: Self)
        ensures
            e.buffers@.len() == 0,
            e.views@.len() == 0,
            e.active_view == ViewId(0),
    {
        Self { buffers: Vec::new(), views: Vec::new(), active_view: ViewId(0) }
    }

    fn active_indices(&self) -> (found: Option<(usize, usize)>)
        ensures
            match found {
                Some((v, b)) => self.view_index() == Some(v as int) && self.buffer_index() == Some(
                    b as int,
                ) && v < self.views@.len() && b < self.buffers@.len(),
                None => self.buffer_index() is None,
            },
    {
        let id = self.active_view.0;
        if id >= self.views.len() as u64 {
            return None;
        }
        let v = id as usize;
        let bid = self.views[v].buffer.0;
        if bid >= self.buffers.len() as u64 {
            return None;
        }
        Some((v, bid as usize))
    }

    /// Opens `content` as a new buffer with a view of its own: the buffer
    /// holds the lines of `content` and gets the next buffer id, the view
    /// the next view id.
    pub fn open_buffer(&mut self, path: String, content: String, size: Size)
        ensures
            final(self).active_view == old(self).active_view,
            final(self).buffers@.len() == old(self).buffers@.len() + 1,
            final(self).views@.len() == old(self).views@.len() + 1,
            forall|i: int|
                0 <= i < old(self).buffers@.len() ==> final(self).buffers@[i] == old(self).buffers@[i],
            forall|i: int|
                0 <= i < old(self).views@.len() ==> final(self).views@[i] == old(self).views@[i],
            final(self).buffers@.last().rows() == lines_of(content@),
            final(self).buffers@.last().path == path,
            final(self).buffers@.last().version == 1,
            final(self).views@.last().id == ViewId(old(self).views@.len() as u64),
            final(self).views@.last().buffer == BufferId(old(self).buffers@.len() as u64),
            final(self).views@.last().size == size,
            final(self).views@.last().cursor == (Cursor { row: 0, col: 0 }),
            final(self).views@.last().scroll == (ScrollOffset { horizontal: 0, vertical: 0 }),
            final(self).views@.last().mode == EditorMode::Normal,
            final(self).views@.last().selection is None,
            final(self).views@.last().highlighter.rules@.len() == 0,
            final(self).views@.last().highlighter.tokens@.len() == 0,
            final(self).views@.last().highlighter.cache@ == Map::<u64, Vec<Token>>::empty(),
    {
        let lines = split_lines(content.as_str());
        let buffer_id = BufferId(self.buffers.len() as u64);
        let buffer = Buffer::new(lines, path);
        assert(buffer.rows() =~= lines_of(content@));
        self.buffers.push(buffer);
        let view_id = ViewId(self.views.len() as u64);
        let view = BufferView::new(view_id, buffer_id, size);
        self.views.push(view);
    }

    /// Replaces the token table of the active view.
    pub fn update_tokens(&mut self, tokens: Vec<Vec<Token>>)
        ensures
            match old(self).view_index() {
                Some(v) => {
                    &&& old(self).differs_at(final(self), v, -1)
                    &&& final(self).views@[v].highlighter.tokens == tokens
                    &&& final(self).views@[v].highlighter.cache@ == Map::<u64, Vec<Token>>::empty()
                    &&& final(self).views@[v].highlighter.same_setup(
                        &old(self).views@[v].highlighter,
                    )
                    &&& final(self).views@[v].same_but_highlighter(&old(self).views@[v])
                },
                None => *final(self) == *old(self),
            },
    {
        let id = self.active_view.0;
        if id < self.views.len() as u64 {
            let v = id as usize;
            let view = &mut self.views[v];
            view.highlighter.update_tokens(tokens);
        }
    }

    /// What the editor looks like after an operation on the active view and
    /// its buffer that are related as `holds` says.
    pub open spec fn stepped(
        &self,
        next: &Editor,
        holds: spec_fn(BufferView, Buffer, BufferView, Buffer) -> bool,
    ) -> bool {
        match (self.view_index(), self.buffer_index()) {
            (Some(v), Some(b)) => self.differs_at(next, v, b) && holds(
                self.views@[v],
                self.buffers@[b],
                next.views@[v],
                next.buffers@[b],
            ),
            _ => *next == *self,
        }
    }

    /// Inserts `c` at the cursor of the active view.
    pub fn insert_char(&mut self, c: char)
        ensures
            old(self).stepped(
                final(self),
                |v0: BufferView, b0: Buffer, v1: BufferView, b1: Buffer|
                    char_inserted(v0, b0, v1, b1, c),
            ),
    {
        let (v, b) = match self.active_indices() {
            Some(found) => found,
            None => { return ; },
        };
        let view = &mut self.views[v];
        let buffer = &mut self.buffers[b];
        let row = view.cursor.row;
        if row >= buffer.len() {
            return ;
        }
        let len = buffer.line_len(row);
        let at = if view.cursor.col <= len {
            view.cursor.col
        } else {
            len
        };
        let ghost b0 = *buffer;
        let _ = buffer.insert_char(row, at, c);
        assert(buffer.rows()[row as int] == b0.rows()[row as int].insert(at as int, c));
        // The grown line still has a length that fits.
        let _ = buffer.line_len(row);
        view.highlighter.shift_line_tokens(row, at, 1);
        view.cursor.col = at;
        view.move_right(buffer);
    }

    /// Backspace at the cursor of the active view.
    pub fn delete_char(&mut self)
        ensures
            old(self).stepped(
                final(self),
                |v0: BufferView, b0: Buffer, v1: BufferView, b1: Buffer|
                    char_deleted(v0, b0, v1, b1),
            ),
    {
        let (v, b) = match self.active_indices() {
            Some(found) => found,
            None => { return ; },
        };
        let view = &mut self.views[v];
        let buffer = &mut self.buffers[b];
        let row = view.cursor.row;
        let col = view.cursor.col;
        let joins = col == 0 && row > 0 && row < buffer.len();
        let removes = row < buffer.len() && col > 0 && col <= buffer.line_len(row);
        if joins {
            view.move_up();
        } else if removes {
            view.move_left(buffer);
        }
        let cursor = buffer.delete_char(row, col);
        view.highlighter.shift_line_tokens(row, col, -1);
        view.cursor = cursor;
    }

    /// Breaks the line at the cursor of the active view.
    pub fn insert_newline(&mut self)
        ensures
            old(self).stepped(
                final(self),
                |v0: BufferView, b0: Buffer, v1: BufferView, b1: Buffer|
                    newline_inserted(v0, b0, v1, b1),
            ),
    {
        let (v, b) = match self.active_indices() {
            Some(found) => found,
            None => { return ; },
        };
        let view = &mut self.views[v];
        let buffer = &mut self.buffers[b];
        let row = view.cursor.row;
        if row >= buffer.len() {
            return ;
        }
        let _ = buffer.insert_newline(row, view.cursor.col);
        view.cursor.row = row + 1;
        view.cursor.col = 0;
        view.scroll.horizontal = 0;
        if view.cursor.row >= view.scroll.vertical && view.cursor.row - view.scroll.vertical
            >= view.size.rows as usize && view.scroll.vertical < usize::MAX {
            view.scroll.vertical = view.scroll.vertical + 1;
        }
    }

    /// Inserts `width` spaces at the cursor of the active view.
    pub fn insert_tab(&mut self, width: usize)
        ensures
            old(self).stepped(
                final(self),
                |v0: BufferView, b0: Buffer, v1: BufferView, b1: Buffer|
                    tab_inserted(v0, b0, v1, b1, width as int),
            ),
    {
        let (v, b) = match self.active_indices() {
            Some(found) => found,
            None => { return ; },
        };
        let view = &mut self.views[v];
        let buffer = &mut self.buffers[b];
        let row = view.cursor.row;
        if row >= buffer.len() {
            return ;
        }
        let len = buffer.line_len(row);
        let at = if view.cursor.col <= len {
            view.cursor.col
        } else {
            len
        };
        let _ = buffer.insert_tab(row, at, width);
        let grown = buffer.line_len(row);
        assert(grown == len + width) by {
            assert(buffer.rows()[row as int].len() == len + width);
        }
        let negative = false;
        view.highlighter.shift_line_tokens_by(row, at, negative, width);
        view.cursor.col = at + width;
    }

    /// Brings the cursor of the active view back into its buffer.
    pub fn clamp_cursor(&mut self)
        ensures
            old(self).stepped(
                final(self),
                |v0: BufferView, b0: Buffer, v1: BufferView, b1: Buffer|
                    {
                        &&& b1 == b0
                        &&& v1.same_but_frame(&v0)
                        &&& v1.scroll == v0.scroll
                        &&& b0.rows().len() > 0 ==> b0.holds(v1.cursor)
                        &&& b0.holds(v0.cursor) ==> v1.cursor == v0.cursor
                    },
            ),
    {
        let (v, b) = match self.active_indices() {
            Some(found) => found,
            None => { return ; },
        };
        let view = &mut self.views[v];
        let buffer = &self.buffers[b];
        view.cursor = buffer.clamp_cursor(view.cursor);
    }

    fn move_cursor(&mut self, dir: Direction)
        ensures
            old(self).stepped(
                final(self),
                |v0: BufferView, b0: Buffer, v1: BufferView, b1: Buffer|
                    b1 == b0 && cursor_moved(v0, b0, v1, dir),
            ),
    {
        let (v, b) = match self.active_indices() {
            Some(found) => found,
            None => { return ; },
        };
        let view = &mut self.views[v];
        let buffer = &self.buffers[b];
        match dir {
            Direction::Up => view.move_up(),
            Direction::Down => view.move_down(buffer),
            Direction::Left => view.move_left(buffer),
            Direction::Right => view.move_right(buffer),
        }
    }

    pub fn move_cursor_up(&mut self)
        ensures
            old(self).stepped(
                final(self),
                |v0: BufferView, b0: Buffer, v1: BufferView, b1: Buffer|
                    b1 == b0 && cursor_moved(v0, b0, v1, Direction::Up),
            ),
    {
        self.move_cursor(Direction::Up)
    }

    pub fn move_cursor_down(&mut self)
        ensures
            old(self).stepped(
                final(self),
                |v0: BufferView, b0: Buffer, v1: BufferView, b1: Buffer|
                    b1 == b0 && cursor_moved(v0, b0, v1, Direction::Down),
            ),
    {
        self.move_cursor(Direction::Down)
    }

    pub fn move_cursor_left(&mut self)
        ensures
            old(self).stepped(
                final(self),
                |v0: BufferView, b0: Buffer, v1: BufferView, b1: Buffer|
                    b1 == b0 && cursor_moved(v0, b0, v1, Direction::Left),
            ),
    {
        self.move_cursor(Direction::Left)
    }

    pub fn move_cursor_right(&mut self)
        ensures
            old(self).stepped(
                final(self),
                |v0: BufferView, b0: Buffer, v1: BufferView, b1: Buffer|
                    b1 == b0 && cursor_moved(v0, b0, v1, Direction::Right),
            ),
    {
        self.move_cursor(Direction::Right)
    }

    /// Sets the mode of the active view, if there is one.
    pub fn change_mode(&mut self, mode: EditorMode)
        ensures
            match old(self).view_index() {
                Some(v) => {
                    &&& old(self).differs_at(final(self), v, -1)
                    &&& final(self).views@[v].mode == mode
                    &&& final(self).views@[v].id == old(self).views@[v].id
                    &&& final(self).views@[v].buffer == old(self).views@[v].buffer
                    &&& final(self).views@[v].cursor == old(self).views@[v].cursor
                    &&& final(self).views@[v].scroll == old(self).views@[v].scroll
                    &&& final(self).views@[v].selection == old(self).views@[v].selection
                    &&& final(self).views@[v].size == old(self).views@[v].size
                    &&& final(self).views@[v].highlighter == old(self).views@[v].highlighter
                },
                None => *final(self) == *old(self),
            },
    {
        let id = self.active_view.0;
        if id < self.views.len() as u64 {
            let view = &mut self.views[id as usize];
            view.mode = mode;
        }
    }

    /// Applies `action` to the active view and its buffer and returns what
    /// is left for the caller to do: a save or a quit is not performed but
    /// handed back; every other action is carried out here and hands back
    /// `Idle`. An action that needs a view or a buffer which is not there
    /// changes nothing.
    pub fn handle_action(&mut self, action: &EditorAction) -> (event: EditorEvent)
        ensures
            match *action {
                EditorAction::MoveCursor(dir) => event == EditorEvent::Idle && old(self).stepped(
                    final(self),
                    |v0: BufferView, b0: Buffer, v1: BufferView, b1: Buffer|
                        b1 == b0 && cursor_moved(v0, b0, v1, dir),
                ),
                EditorAction::InsertChar(c) => event == EditorEvent::Idle && old(self).stepped(
                    final(self),
                    |v0: BufferView, b0: Buffer, v1: BufferView, b1: Buffer|
                        char_inserted(v0, b0, v1, b1, c),
                ),
                EditorAction::DeleteChar => event == EditorEvent::Idle && old(self).stepped(
                    final(self),
                    |v0: BufferView, b0: Buffer, v1: BufferView, b1: Buffer|
                        char_deleted(v0, b0, v1, b1),
                ),
                EditorAction::InsertNewline => event == EditorEvent::Idle && old(self).stepped(
                    final(self),
                    |v0: BufferView, b0: Buffer, v1: BufferView, b1: Buffer|
                        newline_inserted(v0, b0, v1, b1),
                ),
                EditorAction::ChangeMode(mode) => event == EditorEvent::Idle && match old(
                    self
                ).view_index() {
                    Some(v) => {
                        &&& old(self).differs_at(final(self), v, -1)
                        &&& final(self).views@[v].mode == mode
                        &&& final(self).views@[v].same_but_mode(&old(self).views@[v])
                    },
                    None => *final(self) == *old(self),
                },
                EditorAction::SaveCurrentBuffer => {
                    &&& *final(self) == *old(self)
                    &&& event == (match old(self).view_index() {
                        Some(v) => EditorEvent::SaveRequested(old(self).views@[v].buffer),
                        None => EditorEvent::Idle,
                    })
                },
                EditorAction::QuitRequested => *final(self) == *old(self) && event
                    == EditorEvent::QuitRequested,
                _ => *final(self) == *old(self) && event == EditorEvent::Idle,
            },
    {
        match *action {
            EditorAction::MoveCursor(dir) => {
                self.move_cursor(dir);
                EditorEvent::Idle
            },
            EditorAction::InsertChar(c) => {
                self.insert_char(c);
                EditorEvent::Idle
            },
            EditorAction::DeleteChar => {
                self.delete_char();
                EditorEvent::Idle
            },
            EditorAction::InsertNewline => {
                self.insert_newline();
                EditorEvent::Idle
            },
            EditorAction::ChangeMode(mode) => {
                self.change_mode(mode);
                EditorEvent::Idle
            },
            EditorAction::SaveCurrentBuffer => {
                let id = self.active_view.0;
                if id < self.views.len() as u64 {
                    EditorEvent::SaveRequested(self.views[id as usize].buffer)
                } else {
                    EditorEvent::Idle
                }
            },
            EditorAction::QuitRequested => EditorEvent::QuitRequested,
            _ => EditorEvent::Idle,
        }
    }

    /// Forgets the tokens and the cache of the active view.
    pub fn invalidate_tokens(&mut self)
        ensures
            match old(self).view_index() {
                Some(v) => {
                    &&& old(self).differs_at(final(self), v, -1)
                    &&& final(self).views@[v].highlighter.tokens@.len() == 0
                    &&& final(self).views@[v].highlighter.cache@ == Map::<u64, Vec<Token>>::empty()
                    &&& final(self).views@[v].highlighter.same_setup(
                        &old(self).views@[v].highlighter,
                    )
                    &&& final(self).views@[v].same_but_highlighter(&old(self).views@[v])
                },
                None => *final(self) == *old(self),
            },
    {
        let id = self.active_view.0;
        if id < self.views.len() as u64 {
            let view = &mut self.views[id as usize];
            view.highlighter.clear();
        }
    }

    pub fn active_view(&self) -> (view: Option<&BufferView>)
        ensures
            match view {
                Some(v) => self.view_index() is Some && *v == self.views@[self.view_index()->0],
                None => self.view_index() is None,
            },
    {
        let id = self.active_view.0;
        if id < self.views.len() as u64 {
            Some(&self.views[id as usize])
        } else {
            None
        }
    }

    pub fn active_buffer(&self) -> (buffer: Option<&Buffer>)
        ensures
            match buffer {
                Some(b) => self.buffer_index() is Some && *b == self.buffers@[self.buffer_index()->0],
                None => self.buffer_index() is None,
            },
    {
        match self.active_indices() {
            Some((_, b)) => Some(&self.buffers[b]),
            None => None,
        }
    }

    /// All views, the view with id `i` at position `i`.
    pub fn views(&self) -> (views: &Vec<BufferView>)
        ensures
            *views == self.views,
    {
        &self.views
    }

    pub fn buffer(&self, id: &BufferId) -> (buffer: Option<&Buffer>)
        ensures
            match buffer {
                Some(b) => id.0 < self.buffers@.len() && *b == self.buffers@[id.0 as int],
                None => id.0 >= self.buffers@.len(),
            },
    {
        if id.0 < self.buffers.len() as u64 {
            Some(&self.buffers[id.0 as usize])
        } else {
            None
        }
    }
}

/// Inserting a character and deleting it again restores the text and the
/// cursor: for a cursor that points into the buffer, a backspace right
/// after an insertion leaves the rows and the cursor as they were before
/// the insertion. The tokens of the view come back to their columns too,
/// unless one stood at the largest column.
pub proof fn lemma_insert_then_delete(
    v0: BufferView,
    b0: Buffer,
    v1: BufferView,
    b1: Buffer,
    v2: BufferView,
    b2: Buffer,
    c: char,
)
    requires
        b0.holds(v0.cursor),
        char_inserted(v0, b0, v1, b1, c),
        char_deleted(v1, b1, v2, b2),
    ensures
        b2.rows() == b0.rows(),
        v2.cursor == v0.cursor,
        (forall|r: int, k: int|
            0 <= r < v0.highlighter.table().len() && 0 <= k < v0.highlighter.table()[r].len() ==> (
            #[trigger] v0.highlighter.table()[r][k]).offset < usize::MAX)
            ==> v2.highlighter.table() == v0.highlighter.table(),
{
    let row = v0.cursor.row as int;
    let col = v0.cursor.col as int;
    let line = b0.rows()[row];
    assert(b1.rows()[row] == line.insert(col, c));
    assert(removes_char(b1.rows(), row, col + 1));
    assert(line.insert(col, c).remove(col) =~= line);
    assert(b2.rows() =~= b0.rows());
    let table = v0.highlighter.table();
    if forall|r: int, k: int|
        0 <= r < table.len() && 0 <= k < table[r].len() ==> (#[trigger] table[r][k]).offset
            < usize::MAX {
        assert forall|r: int, k: int| 0 <= r < table.len() && 0 <= k < table[r].len() implies 0
            <= (#[trigger] table[r][k]).offset < usize::MAX by {
            assert(table[r] == token_views(v0.highlighter.tokens@[r]@));
            assert(table[r][k] == v0.highlighter.tokens@[r]@[k]@);
        }
        lemma_shift_there_and_back(table, row, col);
    }
}

/// Breaking a line and deleting the break again restores the text: a
/// backspace right after a line break leaves the rows as they were before
/// the break, and the cursor where the line was broken.
pub proof fn lemma_newline_then_delete(
    v0: BufferView,
    b0: Buffer,
    v1: BufferView,
    b1: Buffer,
    v2: BufferView,
    b2: Buffer,
)
    requires
        v0.cursor.row < b0.rows().len(),
        newline_inserted(v0, b0, v1, b1),
        char_deleted(v1, b1, v2, b2),
    ensures
        b2.rows() == b0.rows(),
        v2.cursor.row == v0.cursor.row,
        v2.cursor.col == clamped_col(b0.rows()[v0.cursor.row as int], v0.cursor.col as int),
{
    let row = v0.cursor.row as int;
    let line = b0.rows()[row];
    let at = clamped_col(line, v0.cursor.col as int);
    assert(b1.rows()[row] == line.subrange(0, at));
    assert(b1.rows()[row + 1] == line.subrange(at, line.len() as int));
    assert(joins_lines(b1.rows(), row + 1, 0));
    assert(line.subrange(0, at) + line.subrange(at, line.len() as int) =~= line);
    assert(b2.rows() =~= b0.rows());
}

} // verus!
