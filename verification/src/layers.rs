//! The layers of a frame, as grids of cells: the gutter with the line
//! numbers, the text with its colours, and the user interface. A renderer
//! puts them together and draws the result.

use vstd::prelude::*;
use vstd::string::*;

use crate::buffer::{Buffer, BufferView};
use crate::highlighter::Highlighter;
use crate::plugins::config::Config;
use crate::text::{decimal, format_decimal, to_chars};
use crate::types::{
    table_views, token_views, CellStyle, Color, Cursor, Grid, Rect, RenderCell, Token, TokenView,
};
use crate::ui::command::command_cell;
use crate::ui::ui_manager::{last_bar, last_shown, UiManager};

verus! {

/// The number that the gutter shows for `buffer_row`: the line number,
/// counted from 1; with relative numbers, the distance to the cursor row
/// for every row but that of the cursor.
pub open spec fn gutter_number(buffer_row: int, cursor_row: int, relative: bool) -> int {
    if relative && buffer_row < cursor_row {
        cursor_row - buffer_row
    } else if relative && buffer_row > cursor_row {
        buffer_row - cursor_row
    } else {
        buffer_row + 1
    }
}

/// The label of a gutter of `width` columns for the number `n`: the digits
/// of `n`, moved to the right end of the columns before the last, which
/// stays empty.
pub open spec fn gutter_label(n: nat, width: int) -> Seq<char> {
    if decimal(n).len() >= width - 1 {
        decimal(n) + seq![' ']
    } else {
        Seq::new((width - 1 - decimal(n).len()) as nat, |i: int| ' ') + decimal(n) + seq![' ']
    }
}

/// The style of the number of a row.
pub open spec fn number_style(plain: CellStyle, current: bool) -> CellStyle {
    CellStyle {
        foreground: if current {
            plain.foreground
        } else {
            Some(Color::DarkGrey)
        },
        background: plain.background,
    }
}

/// The cell at column `col` of the gutter row of a line with the label
/// `label`; columns behind the label are transparent.
pub open spec fn number_cell(label: Seq<char>, col: int, style: CellStyle) -> RenderCell {
    if 0 <= col < label.len() {
        RenderCell { ch: label[col], style, transparent: false }
    } else {
        RenderCell::blank_cell()
    }
}

/// The cell at column `col` of a gutter row past the end of the buffer: a
/// tilde in the last column but one, spaces elsewhere.
pub open spec fn past_end_cell(col: int, width: int, plain: CellStyle) -> RenderCell {
    RenderCell {
        ch: if col == width - 2 {
            '~'
        } else {
            ' '
        },
        style: plain,
        transparent: false,
    }
}

/// The gutter.
pub struct GutterLayer;

impl GutterLayer {
    /// The cell of the gutter at (`row`, `col`) for a view of `view` on a
    /// buffer of `line_count` lines.
    pub open spec fn cell(
        view: &BufferView,
        active: bool,
        line_count: int,
        relative: bool,
        plain: CellStyle,
        width: int,
        row: int,
        col: int,
    ) -> RenderCell {
        let buffer_row = row + view.scroll.vertical;
        if buffer_row >= line_count {
            past_end_cell(col, width, plain)
        } else {
            number_cell(
                gutter_label(
                    gutter_number(buffer_row, view.cursor.row as int, relative) as nat,
                    width,
                ),
                col,
                number_style(plain, active && buffer_row == view.cursor.row),
            )
        }
    }

    /// The gutter of `view`, `rect.rows` by `rect.cols` cells: for every
    /// row of the buffer that is shown its number, in the foreground colour
    /// of the theme on the cursor row of the active view and in dark grey
    /// elsewhere; for every row past the end a tilde.
    pub fn render(buffer: &Buffer, view: &BufferView, active: bool, config: &Config, rect: Rect) -> (grid:
        Grid<RenderCell>)
        ensures
            grid.wf(),
            grid.cells@.len() == rect.rows,
            forall|r: int| 0 <= r < rect.rows ==> (#[trigger] grid.cells@[r])@.len() == rect.cols,
            forall|r: int, c: int|
                0 <= r < rect.rows && 0 <= c < rect.cols ==> (#[trigger] grid.cells@[r]@[c])
                    == Self::cell(
                    view,
                    active,
                    buffer.rows().len() as int,
                    config.opt.relative_numbers == Some(true),
                    RenderCell::plain_style(config.plain_colors()),
                    rect.cols as int,
                    r,
                    c,
                ),
    {
        let plain = RenderCell::default_style(config);
        let relative = match config.opt.relative_numbers {
            Some(flag) => flag,
            None => false,
        };
        let rows = rect.rows as usize;
        let cols = rect.cols as usize;
        let total = buffer.len();
        let mut cells: Vec<Vec<RenderCell>> = Vec::new();
        let mut r: usize = 0;
        while r < rows
            invariant
                r <= rows,
                rows == rect.rows,
                cols == rect.cols,
                total == buffer.rows().len(),
                plain == RenderCell::plain_style(config.plain_colors()),
                relative == (config.opt.relative_numbers == Some(true)),
                cells@.len() == r,
                forall|i: int| 0 <= i < r ==> (#[trigger] cells@[i])@.len() == cols,
                forall|i: int, c: int|
                    0 <= i < r && 0 <= c < cols ==> (#[trigger] cells@[i]@[c]) == Self::cell(
                        view,
                        active,
                        total as int,
                        relative,
                        plain,
                        cols as int,
                        i,
                        c,
                    ),
            decreases rows - r,
        {
            let mut line: Vec<RenderCell> = Vec::new();
            let shown = r < total && view.scroll.vertical < total - r;
            if shown {
                let buffer_row = r + view.scroll.vertical;
                let number: usize = if relative && buffer_row < view.cursor.row {
                    view.cursor.row - buffer_row
                } else if relative && buffer_row > view.cursor.row {
                    buffer_row - view.cursor.row
                } else {
                    buffer_row + 1
                };
                let digits = to_chars(format_decimal(number).as_str());
                let style = CellStyle {
                    foreground: if active && buffer_row == view.cursor.row {
                        plain.foreground
                    } else {
                        Some(Color::DarkGrey)
                    },
                    background: plain.background,
                };
                let pad: usize = if cols == 0 || digits.len() >= cols - 1 {
                    0
                } else {
                    cols - 1 - digits.len()
                };
                let ghost label = gutter_label(number as nat, cols as int);
                let mut c: usize = 0;
                while c < cols
                    invariant
                        c <= cols,
                        digits@ == decimal(number as nat),
                        label == gutter_label(number as nat, cols as int),
                        pad == if digits@.len() >= cols - 1 {
                            0
                        } else {
                            cols - 1 - digits@.len()
                        },
                        line@.len() == c,
                        forall|j: int|
                            0 <= j < c ==> (#[trigger] line@[j]) == number_cell(label, j, style),
                    decreases cols - c,
                {
                    let cell = if c < pad {
                        RenderCell { ch: ' ', style, transparent: false }
                    } else if c - pad < digits.len() {
                        RenderCell { ch: digits[c - pad], style, transparent: false }
                    } else if c - pad == digits.len() {
                        RenderCell { ch: ' ', style, transparent: false }
                    } else {
                        RenderCell::blank()
                    };
                    assert(cell == number_cell(label, c as int, style));
                    line.push(cell);
                    c = c + 1;
                }
            } else {
                let mut c: usize = 0;
                while c < cols
                    invariant
                        c <= cols,
                        line@.len() == c,
                        forall|j: int|
                            0 <= j < c ==> (#[trigger] line@[j]) == past_end_cell(
                                j,
                                cols as int,
                                plain,
                            ),
                    decreases cols - c,
                {
                    let ch = if cols >= 2 && c == cols - 2 {
                        '~'
                    } else {
                        ' '
                    };
                    line.push(RenderCell { ch, style: plain, transparent: false });
                    c = c + 1;
                }
            }
            cells.push(line);
            r = r + 1;
        }
        Grid { cells }
    }
}

/// The position in `tokens[..upto]` of the last token that covers column
/// `col`, if there is one.
pub open spec fn covering(tokens: Seq<TokenView>, upto: int, col: int) -> Option<int>
    decreases upto,
{
    if upto <= 0 || upto > tokens.len() {
        None
    } else if tokens[upto - 1].offset <= col < tokens[upto - 1].end() {
        Some(upto - 1)
    } else {
        covering(tokens, upto - 1, col)
    }
}

/// The cell that shows column `col` of a line with the tokens `tokens`: the
/// character of the last token that covers the column, in the colour of the
/// token or else the foreground of the theme; transparent where no token
/// covers the column.
pub open spec fn text_cell(tokens: Seq<TokenView>, upto: int, col: int, plain: CellStyle) -> RenderCell {
    match covering(tokens, upto, col) {
        Some(k) => RenderCell {
            ch: tokens[k].text[col - tokens[k].offset],
            style: CellStyle {
                foreground: if tokens[k].style is Some {
                    tokens[k].style
                } else {
                    plain.foreground
                },
                background: plain.background,
            },
            transparent: false,
        },
        None => RenderCell::blank_cell(),
    }
}

/// What highlighting `count` lines of `rows` from line `first` on returns,
/// line by line, when the cache holds `cache` at the start: every line is
/// highlighted with the cache that the lines before it have left.
pub open spec fn shown_lines(
    h: &Highlighter,
    cache: Map<u64, Seq<TokenView>>,
    rows: Seq<Seq<char>>,
    first: int,
    count: int,
) -> Seq<Seq<TokenView>>
    decreases count,
{
    if count <= 0 || first < 0 || first >= rows.len() {
        Seq::empty()
    } else {
        seq![h.shown(cache, rows[first], first)] + shown_lines(
            h,
            h.cache_after(cache, rows[first], first),
            rows,
            first + 1,
            count - 1,
        )
    }
}

/// What the cache holds after highlighting `count` lines of `rows` from
/// line `first` on.
pub open spec fn cache_after_lines(
    h: &Highlighter,
    cache: Map<u64, Seq<TokenView>>,
    rows: Seq<Seq<char>>,
    first: int,
    count: int,
) -> Map<u64, Seq<TokenView>>
    decreases count,
{
    if count <= 0 || first < 0 || first >= rows.len() {
        cache
    } else {
        cache_after_lines(
            h,
            h.cache_after(cache, rows[first], first),
            rows,
            first + 1,
            count - 1,
        )
    }
}

/// The text of a view.
pub struct TextLayer;

impl TextLayer {
    /// Paints `tokens` into a row of `width` cells that shows the columns
    /// from `scroll` on.
    pub fn render_highlighted_line(
        tokens: &Vec<Token>,
        scroll: usize,
        width: usize,
        config: &Config,
    ) -> (out: Vec<RenderCell>)
        requires
            scroll + width <= usize::MAX,
        ensures
            out@.len() == width,
            forall|c: int|
                0 <= c < width ==> (#[trigger] out@[c]) == text_cell(
                    token_views(tokens@),
                    tokens@.len() as int,
                    c + scroll,
                    RenderCell::plain_style(config.plain_colors()),
                ),
    {
        let plain = RenderCell::default_style(config);
        let ghost views = token_views(tokens@);
        let mut texts: Vec<Vec<char>> = Vec::new();
        let mut k: usize = 0;
        while k < tokens.len()
            invariant
                k <= tokens.len(),
                texts@.len() == k,
                forall|j: int| 0 <= j < k ==> (#[trigger] texts@[j])@ == tokens@[j]@.text,
            decreases tokens.len() - k,
        {
            texts.push(to_chars(tokens[k].text.as_str()));
            k = k + 1;
        }
        let mut row: Vec<RenderCell> = Vec::new();
        let mut c: usize = 0;
        while c < width
            invariant
                c <= width,
                scroll + width <= usize::MAX,
                views == token_views(tokens@),
                plain == RenderCell::plain_style(config.plain_colors()),
                texts@.len() == tokens@.len(),
                forall|j: int|
                    0 <= j < tokens@.len() ==> (#[trigger] texts@[j])@ == tokens@[j]@.text,
                row@.len() == c,
                forall|j: int|
                    0 <= j < c ==> (#[trigger] row@[j]) == text_cell(
                        views,
                        tokens@.len() as int,
                        j + scroll,
                        plain,
                    ),
            decreases width - c,
        {
            let col = c + scroll;
            let mut cell = RenderCell::blank();
            let mut upto: usize = tokens.len();
            let mut found = false;
            while upto > 0 && !found
                invariant
                    upto <= tokens.len(),
                    views == token_views(tokens@),
                    texts@.len() == tokens@.len(),
                    forall|j: int|
                        0 <= j < tokens@.len() ==> (#[trigger] texts@[j])@ == tokens@[j]@.text,
                    !found ==> covering(views, tokens@.len() as int, col as int) == covering(
                        views,
                        upto as int,
                        col as int,
                    ) && cell == RenderCell::blank_cell(),
                    found ==> cell == text_cell(views, tokens@.len() as int, col as int, plain),
                decreases upto + if found { 0int } else { 1int },
            {
                let token = &tokens[upto - 1];
                let text = &texts[upto - 1];
                assert(views[upto - 1] == token@);
                if token.offset <= col && col - token.offset < text.len() {
                    cell = RenderCell {
                        ch: text[col - token.offset],
                        style: CellStyle {
                            foreground: match token.style {
                                Some(color) => Some(color),
                                None => plain.foreground,
                            },
                            background: plain.background,
                        },
                        transparent: false,
                    };
                    found = true;
                } else {
                    upto = upto - 1;
                }
            }
            row.push(cell);
            c = c + 1;
        }
        row
    }

    /// The display tokens of the lines of `buffer` that `view` shows in
    /// `rows` rows, line by line from the first visible row; fewer where the
    /// buffer ends before. Every line is highlighted once, in order, so the
    /// cache of the view fills on the way.
    pub fn highlight_visible(buffer: &Buffer, view: &mut BufferView, rows: u16) -> (lines: Vec<
        Vec<Token>,
    >)
        ensures
            table_views(lines@) == shown_lines(
                &old(view).highlighter,
                old(view).highlighter.cache_views(),
                buffer.rows(),
                old(view).scroll.vertical as int,
                rows as int,
            ),
            final(view).highlighter.cache_views() == cache_after_lines(
                &old(view).highlighter,
                old(view).highlighter.cache_views(),
                buffer.rows(),
                old(view).scroll.vertical as int,
                rows as int,
            ),
            final(view).same_but_highlighter(old(view)),
            final(view).highlighter.same_setup(&old(view).highlighter),
            final(view).highlighter.tokens == old(view).highlighter.tokens,
    {
        let total = buffer.len();
        let first = view.scroll.vertical;
        let mut lines: Vec<Vec<Token>> = Vec::new();
        let mut r: usize = 0;
        let ghost h0 = old(view).highlighter;
        let ghost cache0 = h0.cache_views();
        let ghost text = buffer.rows();
        assert(table_views(lines@) =~= Seq::<Seq<TokenView>>::empty());
        while r < rows as usize && first < total && r < total - first
            invariant
                r <= rows,
                total == buffer.rows().len(),
                text == buffer.rows(),
                first == old(view).scroll.vertical,
                h0 == old(view).highlighter,
                cache0 == h0.cache_views(),
                view.same_but_highlighter(old(view)),
                view.highlighter.same_setup(&h0),
                view.highlighter.tokens == h0.tokens,
                lines@.len() == r,
                table_views(lines@) + shown_lines(
                    &h0,
                    view.highlighter.cache_views(),
                    text,
                    first + r,
                    rows - r,
                ) == shown_lines(&h0, cache0, text, first as int, rows as int),
                cache_after_lines(
                    &h0,
                    view.highlighter.cache_views(),
                    text,
                    first + r,
                    rows - r,
                ) == cache_after_lines(&h0, cache0, text, first as int, rows as int),
            decreases rows - r,
        {
            let buffer_row = first + r;
            let ghost before = table_views(lines@);
            let ghost cache = view.highlighter.cache_views();
            let ghost now = view.highlighter;
            let tokens = view.highlighter.highlight(buffer.lines[buffer_row].as_str(), buffer_row);
            proof {
                assert(text[buffer_row as int] == buffer.lines@[buffer_row as int]@);
                assert(now.external(buffer_row as int) == h0.external(buffer_row as int));
                assert(now.candidates(text[buffer_row as int]) == h0.candidates(
                    text[buffer_row as int],
                ));
                assert(now.shown(cache, text[buffer_row as int], buffer_row as int) == h0.shown(
                    cache,
                    text[buffer_row as int],
                    buffer_row as int,
                ));
                assert(now.cache_after(cache, text[buffer_row as int], buffer_row as int)
                    == h0.cache_after(cache, text[buffer_row as int], buffer_row as int));
            }
            let ghost shown = token_views(tokens@);
            lines.push(tokens);
            r = r + 1;
            assert(table_views(lines@) =~= before.push(shown));
            assert(before.push(shown) + shown_lines(
                &h0,
                view.highlighter.cache_views(),
                text,
                first + r,
                rows - r,
            ) =~= before + shown_lines(&h0, cache, text, first + r - 1, rows - r + 1));
        }
        proof {
            assert(table_views(lines@) + Seq::<Seq<TokenView>>::empty() =~= table_views(lines@));
        }
        lines
    }

    /// The text layer of `rect.rows` by `rect.cols` cells for the lines
    /// with the display tokens `lines`, from the first visible column
    /// `scroll` on; rows behind the last line are transparent.
    pub fn render(lines: &Vec<Vec<Token>>, scroll: usize, config: &Config, rect: Rect) -> (grid: Grid<
        RenderCell,
    >)
        requires
            scroll + rect.cols <= usize::MAX,
        ensures
            grid.wf(),
            grid.cells@.len() == rect.rows,
            forall|r: int| 0 <= r < rect.rows ==> (#[trigger] grid.cells@[r])@.len() == rect.cols,
            forall|r: int, c: int|
                0 <= r < rect.rows && 0 <= c < rect.cols ==> (#[trigger] grid.cells@[r]@[c]) == if r
                    < lines@.len() {
                    text_cell(
                        token_views(lines@[r]@),
                        lines@[r]@.len() as int,
                        c + scroll,
                        RenderCell::plain_style(config.plain_colors()),
                    )
                } else {
                    RenderCell::blank_cell()
                },
    {
        let rows = rect.rows as usize;
        let cols = rect.cols as usize;
        let mut cells: Vec<Vec<RenderCell>> = Vec::new();
        let mut r: usize = 0;
        while r < rows
            invariant
                r <= rows,
                rows == rect.rows,
                cols == rect.cols,
                scroll + cols <= usize::MAX,
                cells@.len() == r,
                forall|i: int| 0 <= i < r ==> (#[trigger] cells@[i])@.len() == cols,
                forall|i: int, c: int|
                    0 <= i < r && 0 <= c < cols ==> (#[trigger] cells@[i]@[c]) == if i
                        < lines@.len() {
                        text_cell(
                            token_views(lines@[i]@),
                            lines@[i]@.len() as int,
                            c + scroll,
                            RenderCell::plain_style(config.plain_colors()),
                        )
                    } else {
                        RenderCell::blank_cell()
                    },
            decreases rows - r,
        {
            let line = if r < lines.len() {
                Self::render_highlighted_line(&lines[r], scroll, cols, config)
            } else {
                Self::render_empty_line(cols)
            };
            cells.push(line);
            r = r + 1;
        }
        Grid { cells }
    }

    /// A transparent row of `width` cells.
    pub fn render_empty_line(width: usize) -> (out: Vec<RenderCell>)
        ensures
            out@.len() == width,
            forall|c: int|
                0 <= c < width ==> (#[trigger] out@[c]) == RenderCell::blank_cell(),
    {
        let mut row: Vec<RenderCell> = Vec::new();
        let mut c: usize = 0;
        while c < width
            invariant
                c <= width,
                row@.len() == c,
                forall|j: int|
                    0 <= j < c ==> (#[trigger] row@[j]) == RenderCell::blank_cell(),
            decreases width - c,
        {
            row.push(RenderCell::blank());
            c = c + 1;
        }
        row
    }
}

/// The user interface.
pub struct UiLayer;

impl UiLayer {
    /// The user interface on a transparent grid of `rect.rows` by
    /// `rect.cols` cells: row 0 shows the last status bar, row 1 the last
    /// command line that is shown; every other cell is transparent.
    pub fn render(ui: &UiManager, rect: Rect) -> (grid: Grid<RenderCell>)
        ensures
            grid.cells@.len() == rect.rows,
            forall|r: int| 0 <= r < rect.rows ==> (#[trigger] grid.cells@[r])@.len() == rect.cols,
            forall|r: int, c: int|
                0 <= r < rect.rows && 0 <= c < rect.cols ==> (#[trigger] grid.cells@[r]@[c]) == if r
                    == 0 {
                    match last_bar(ui.elements@, ui.elements@.len() as int) {
                        Some(bar) => bar.bar_cells(rect.cols as int)[c],
                        None => RenderCell::blank_cell(),
                    }
                } else if r == 1 {
                    match last_shown(ui.elements@, ui.elements@.len() as int) {
                        Some(command) => command_cell(command.command@, c),
                        None => RenderCell::blank_cell(),
                    }
                } else {
                    RenderCell::blank_cell()
                },
    {
        let mut grid = Grid::new(rect.rows as usize, rect.cols as usize, RenderCell::blank());
        let ghost empty = grid;
        ui.render(&mut grid);
        proof {
            match last_bar(ui.elements@, ui.elements@.len() as int) {
                Some(bar) => {
                    bar.lemma_bar_width(rect.cols as int);
                },
                None => {},
            }
            assert forall|r: int| 0 <= r < rect.rows implies (#[trigger] grid.cells@[r])@.len()
                == rect.cols by {
                assert(empty.cells@[r]@.len() == rect.cols);
            }
        }
        grid
    }
}

/// Where the terminal cursor belongs on screen for a view whose cursor is
/// `cursor`: behind the gutter at the cursor column, not past the end of
/// its line, in the row of the cursor below the rows at the top that the
/// user interface takes. Nowhere where the cursor row is scrolled out
/// above or the position does not fit on a screen.
pub open spec fn screen_position(
    cursor: Cursor,
    scroll_vertical: int,
    line_len: int,
    gutter: int,
    top: int,
) -> Option<(u16, u16)> {
    let col = gutter + if cursor.col < line_len {
        cursor.col as int
    } else {
        line_len
    };
    let row = cursor.row + top - scroll_vertical;
    if cursor.row >= scroll_vertical && col <= u16::MAX && row <= u16::MAX {
        Some((col as u16, row as u16))
    } else {
        None
    }
}

/// Where the terminal cursor belongs on screen.
pub fn cursor_position(view: &BufferView, buffer: &Buffer, gutter: u16, top: usize) -> (at: Option<
    (u16, u16),
>)
    ensures
        at == screen_position(
            view.cursor,
            view.scroll.vertical as int,
            if view.cursor.row < buffer.rows().len() {
                buffer.rows()[view.cursor.row as int].len() as int
            } else {
                0
            },
            gutter as int,
            top as int,
        ),
{
    let len = buffer.line_len(view.cursor.row);
    let col = if view.cursor.col < len {
        view.cursor.col
    } else {
        len
    };
    if view.cursor.row < view.scroll.vertical {
        return None;
    }
    let down = view.cursor.row - view.scroll.vertical;
    if col > (u16::MAX - gutter) as usize || top > u16::MAX as usize || down > u16::MAX as usize
        - top {
        return None;
    }
    Some(((gutter as usize + col) as u16, (down + top) as u16))
}

} // verus!
