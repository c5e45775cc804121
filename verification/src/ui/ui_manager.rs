//! The elements of the user interface, drawn one over the other in the
//! order they were added.

use vstd::prelude::*;

use crate::types::{Grid, RenderCell};
use crate::ui::card::Card;
use crate::ui::command::{command_cell, Command};
use crate::ui::status_bar::StatusBar;

verus! {

/// An element of the user interface.
pub enum UiWidget {
    StatusBar(StatusBar),
    Command(Command),
    Card(Card),
}

/// The kinds of element.
#[derive(Clone, Copy, Debug, PartialEq, Eq, Structural)]
pub enum UiKind {
    StatusBar,
    Command,
    Card,
}

impl UiWidget {
    pub open spec fn kind(&self) -> UiKind {
        match self {
            UiWidget::StatusBar(_) => UiKind::StatusBar,
            UiWidget::Command(_) => UiKind::Command,
            UiWidget::Card(_) => UiKind::Card,
        }
    }

    fn is(&self, kind: UiKind) -> (b: bool)
        ensures
            b == (self.kind() == kind),
    {
        match (self, kind) {
            (UiWidget::StatusBar(_), UiKind::StatusBar) => true,
            (UiWidget::Command(_), UiKind::Command) => true,
            (UiWidget::Card(_), UiKind::Card) => true,
            _ => false,
        }
    }
}

/// The position of the first element of kind `kind` in `elements[from..]`.
pub open spec fn first_of(elements: Seq<UiWidget>, kind: UiKind, from: int) -> Option<int>
    decreases elements.len() - from,
{
    if from < 0 || from >= elements.len() {
        None
    } else if elements[from].kind() == kind {
        Some(from)
    } else {
        first_of(elements, kind, from + 1)
    }
}

/// The last status bar among `elements[..upto]`.
pub open spec fn last_bar(elements: Seq<UiWidget>, upto: int) -> Option<StatusBar>
    decreases upto,
{
    if upto <= 0 || upto > elements.len() {
        None
    } else {
        match elements[upto - 1] {
            UiWidget::StatusBar(bar) => Some(bar),
            _ => last_bar(elements, upto - 1),
        }
    }
}

/// The last command line among `elements[..upto]` that is shown.
pub open spec fn last_shown(elements: Seq<UiWidget>, upto: int) -> Option<Command>
    decreases upto,
{
    if upto <= 0 || upto > elements.len() {
        None
    } else {
        match elements[upto - 1] {
            UiWidget::Command(command) => if command.shown {
                Some(command)
            } else {
                last_shown(elements, upto - 1)
            },
            _ => last_shown(elements, upto - 1),
        }
    }
}

pub struct UiManager {
    pub elements: Vec<UiWidget>,
}

impl UiManager {
    pub fn new() -> (m: Self)
        ensures
            m.elements@.len() == 0,
    {
        Self { elements: Vec::new() }
    }

    /// The rows at the top of the frame that the elements take.
    pub fn top_offset(&self) -> (rows: usize)
        ensures
            rows == 1,
    {
        1
    }

    pub fn add(&mut self, element: UiWidget)
        ensures
            final(self).elements@ == old(self).elements@.push(element),
    {
        self.elements.push(element);
    }

    fn find(&self, kind: UiKind) -> (found: Option<usize>)
        ensures
            match found {
                Some(i) => first_of(self.elements@, kind, 0) == Some(i as int) && i
                    < self.elements@.len() && self.elements@[i as int].kind() == kind,
                None => first_of(self.elements@, kind, 0) is None,
            },
    {
        let mut i: usize = 0;
        while i < self.elements.len()
            invariant
                i <= self.elements.len(),
                first_of(self.elements@, kind, 0) == first_of(self.elements@, kind, i as int),
            decreases self.elements.len() - i,
        {
            if self.elements[i].is(kind) {
                return Some(i);
            }
            i = i + 1;
        }
        None
    }

    /// The first element of kind `kind`.
    pub fn get(&self, kind: UiKind) -> (element: Option<&UiWidget>)
        ensures
            match element {
                Some(e) => first_of(self.elements@, kind, 0) matches Some(i) && *e
                    == self.elements@[i],
                None => first_of(self.elements@, kind, 0) is None,
            },
    {
        match self.find(kind) {
            Some(i) => Some(&self.elements[i]),
            None => None,
        }
    }

    /// The first element of kind `kind`, to be changed in place.
    pub fn get_mut(&mut self, kind: UiKind) -> (element: Option<&mut UiWidget>)
        ensures
            match element {
                Some(e) => {
                    &&& first_of(old(self).elements@, kind, 0) matches Some(i)
                    &&& *e == old(self).elements@[i]
                    &&& final(self).elements@ == old(self).elements@.update(i, *final(e))
                },
                None => {
                    &&& first_of(old(self).elements@, kind, 0) is None
                    &&& *final(self) == *old(self)
                },
            },
    {
        match self.find(kind) {
            Some(i) => Some(&mut self.elements[i]),
            None => None,
        }
    }

    /// Draws the elements into `frame` in the order they were added: a
    /// status bar into row 0, a command line that is shown into row 1. So
    /// row 0 shows the last status bar, row 1 the last command line that is
    /// shown, and every row that no element draws into stays as it is.
    pub fn render(&self, frame: &mut Grid<RenderCell>)
        ensures
            final(frame).cells@.len() == old(frame).cells@.len(),
            forall|r: int|
                1 < r < old(frame).cells@.len() ==> final(frame).cells@[r] == old(frame).cells@[r],
            old(frame).cells@.len() > 0 ==> final(frame).cells@[0]@ == match last_bar(
                self.elements@,
                self.elements@.len() as int,
            ) {
                Some(bar) => bar.bar_cells(old(frame).cells@[0]@.len() as int).subrange(
                    0,
                    old(frame).cells@[0]@.len() as int,
                ),
                None => old(frame).cells@[0]@,
            },
            old(frame).cells@.len() > 1 ==> final(frame).cells@[1]@.len() == old(
                frame
            ).cells@[1]@.len(),
            forall|c: int|
                old(frame).cells@.len() > 1 && 0 <= c < old(frame).cells@[1]@.len() ==> (
                #[trigger] final(frame).cells@[1]@[c]) == match last_shown(
                    self.elements@,
                    self.elements@.len() as int,
                ) {
                    Some(command) => command_cell(command.command@, c),
                    None => old(frame).cells@[1]@[c],
                },
    {
        let mut i: usize = 0;
        while i < self.elements.len()
            invariant
                i <= self.elements.len(),
                frame.cells@.len() == old(frame).cells@.len(),
                forall|r: int|
                    1 < r < old(frame).cells@.len() ==> frame.cells@[r] == old(frame).cells@[r],
                old(frame).cells@.len() > 0 ==> frame.cells@[0]@ == match last_bar(
                    self.elements@,
                    i as int,
                ) {
                    Some(bar) => bar.bar_cells(old(frame).cells@[0]@.len() as int).subrange(
                        0,
                        old(frame).cells@[0]@.len() as int,
                    ),
                    None => old(frame).cells@[0]@,
                },
                old(frame).cells@.len() > 0 ==> frame.cells@[0]@.len() == old(
                    frame
                ).cells@[0]@.len(),
                old(frame).cells@.len() > 1 ==> frame.cells@[1]@.len() == old(
                    frame
                ).cells@[1]@.len(),
                forall|c: int|
                    old(frame).cells@.len() > 1 && 0 <= c < old(frame).cells@[1]@.len() ==> (
                    #[trigger] frame.cells@[1]@[c]) == match last_shown(self.elements@, i as int) {
                        Some(command) => command_cell(command.command@, c),
                        None => old(frame).cells@[1]@[c],
                    },
            decreases self.elements.len() - i,
        {
            match &self.elements[i] {
                UiWidget::Command(command) => command.draw(frame),
                UiWidget::StatusBar(bar) => {
                    proof {
                        bar.lemma_bar_width(frame.cells@[0]@.len() as int);
                    }
                    bar.draw(frame)
                },
                UiWidget::Card(_) => {},
            }
            i = i + 1;
        }
    }
}

} // verus!
