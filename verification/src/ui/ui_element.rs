//! What every element of the user interface can do.

use vstd::prelude::*;

use crate::types::{Grid, RenderCell};

verus! {

pub trait UiElement {
    /// Draws the element into `frame`.
    fn render(&self, frame: &mut Grid<RenderCell>);
}

} // verus!
