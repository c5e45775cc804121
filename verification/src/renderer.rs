//! Composing the frame that a renderer draws. Drawing itself is done
//! outside this crate, by an implementation of [`Renderer`].

use vstd::prelude::*;

use crate::editor::Editor;
use crate::plugins::config::Config;
use crate::types::{Grid, RenderCell, Size};
use crate::ui::ui_manager::UiManager;

verus! {

/// What draws the editor: a terminal, a window.
pub trait Renderer {
    fn begin_frame(&mut self);

    /// Draws the views of `editor` with the user interface over them.
    /// Highlighting fills the caches of the views on the way.
    fn draw_buffer(&mut self, editor: &mut Editor, ui: &UiManager, config: &Config);

    fn end_frame(&mut self);

    fn resize(&mut self, new_size: Size);
}

/// Puts the grids of the layers together.
pub struct Composite;

impl Composite {
    /// The gutter with the text to its right: each row of `gutter` followed
    /// by the same row of `text`, where `text` has one.
    pub fn merge(gutter: &Grid<RenderCell>, text: &Grid<RenderCell>) -> (out: Grid<RenderCell>)
        ensures
            out.cells@.len() == gutter.cells@.len(),
            forall|r: int|
                0 <= r < gutter.cells@.len() ==> (#[trigger] out.cells@[r])@ == gutter.cells@[r]@
                    + if r < text.cells@.len() {
                    text.cells@[r]@
                } else {
                    Seq::empty()
                },
    {
        let mut cells: Vec<Vec<RenderCell>> = Vec::new();
        let mut r: usize = 0;
        while r < gutter.cells.len()
            invariant
                r <= gutter.cells.len(),
                cells@.len() == r,
                forall|i: int|
                    0 <= i < r ==> (#[trigger] cells@[i])@ == gutter.cells@[i]@ + if i
                        < text.cells@.len() {
                        text.cells@[i]@
                    } else {
                        Seq::empty()
                    },
            decreases gutter.cells.len() - r,
        {
            let mut row: Vec<RenderCell> = Vec::new();
            let left = &gutter.cells[r];
            let mut c: usize = 0;
            while c < left.len()
                invariant
                    c <= left.len(),
                    row@ == left@.subrange(0, c as int),
                decreases left.len() - c,
            {
                row.push(left[c]);
                c = c + 1;
                assert(row@ =~= left@.subrange(0, c as int));
            }
            assert(left@.subrange(0, c as int) =~= left@);
            if r < text.cells.len() {
                let right = &text.cells[r];
                let mut d: usize = 0;
                while d < right.len()
                    invariant
                        d <= right.len(),
                        row@ == left@ + right@.subrange(0, d as int),
                    decreases right.len() - d,
                {
                    row.push(right[d]);
                    d = d + 1;
                    assert(row@ =~= left@ + right@.subrange(0, d as int));
                }
                assert(right@.subrange(0, d as int) =~= right@);
            } else {
                assert(row@ =~= left@ + Seq::<RenderCell>::empty());
            }
            cells.push(row);
            r = r + 1;
        }
        Grid { cells }
    }

    /// `base` with the cells of `overlay` that are not transparent laid over
    /// it; cells of the overlay outside `base` are cut off.
    pub fn overlay(base: &Grid<RenderCell>, overlay: &Grid<RenderCell>) -> (out: Grid<RenderCell>)
        ensures
            out.cells@.len() == base.cells@.len(),
            forall|r: int|
                0 <= r < base.cells@.len() ==> (#[trigger] out.cells@[r])@.len()
                    == base.cells@[r]@.len(),
            forall|r: int, c: int|
                base.has(r, c) ==> (#[trigger] out.cells@[r]@[c]) == if overlay.has(r, c)
                    && !overlay.cells@[r]@[c].transparent {
                    overlay.cells@[r]@[c]
                } else {
                    base.cells@[r]@[c]
                },
    {
        let mut cells: Vec<Vec<RenderCell>> = Vec::new();
        let mut r: usize = 0;
        while r < base.cells.len()
            invariant
                r <= base.cells.len(),
                cells@.len() == r,
                forall|i: int|
                    0 <= i < r ==> (#[trigger] cells@[i])@.len() == base.cells@[i]@.len(),
                forall|i: int, c: int|
                    0 <= i < r && base.has(i, c) ==> (#[trigger] cells@[i]@[c]) == if overlay.has(
                        i,
                        c,
                    ) && !overlay.cells@[i]@[c].transparent {
                        overlay.cells@[i]@[c]
                    } else {
                        base.cells@[i]@[c]
                    },
            decreases base.cells.len() - r,
        {
            let mut row: Vec<RenderCell> = Vec::new();
            let under = &base.cells[r];
            let mut c: usize = 0;
            while c < under.len()
                invariant
                    c <= under.len(),
                    r < base.cells.len(),
                    *under == base.cells@[r as int],
                    row@.len() == c,
                    forall|j: int|
                        0 <= j < c ==> (#[trigger] row@[j]) == if overlay.has(r as int, j)
                            && !overlay.cells@[r as int]@[j].transparent {
                            overlay.cells@[r as int]@[j]
                        } else {
                            under@[j]
                        },
                decreases under.len() - c,
            {
                let mut cell = under[c];
                if r < overlay.cells.len() && c < overlay.cells[r].len() {
                    let over = overlay.cells[r][c];
                    if !over.transparent {
                        cell = over;
                    }
                }
                row.push(cell);
                c = c + 1;
            }
            cells.push(row);
            r = r + 1;
        }
        Grid { cells }
    }
}

} // verus!
