//! A card: a short text shown in a box.

#![allow(non_camel_case_types)]

use vstd::prelude::*;
use vstd::string::*;

use crate::text::{from_chars, to_chars};
use crate::types::{CellStyle, Color, Grid, RenderCell};
use crate::ui::ui_element::UiElement;

verus! {

#[derive(Clone, Copy, Debug, PartialEq, Eq, Structural)]
pub enum CardType {
    INFO,
    WARNING,
    ERROR,
}

#[derive(Clone, Debug, PartialEq)]
pub struct Card {
    pub description: String,
    pub card_type: CardType,
}

/// `text` cut into pieces of `width` characters; the last piece may be
/// shorter.
pub open spec fn chunks(text: Seq<char>, width: int) -> Seq<Seq<char>>
    decreases text.len(),
{
    if width <= 0 || text.len() == 0 {
        Seq::empty()
    } else if text.len() <= width {
        seq![text]
    } else {
        seq![text.subrange(0, width)] + chunks(text.subrange(width, text.len() as int), width)
    }
}

impl Card {
    /// An information card.
    pub fn new(description: String) -> (card: Self)
        ensures
            card.description == description,
            card.card_type == CardType::INFO,
    {
        Self { description, card_type: CardType::INFO }
    }

    pub fn update(&mut self, description: String)
        ensures
            final(self).description == description,
            final(self).card_type == old(self).card_type,
    {
        self.description = description;
    }

    /// The description cut into lines of at most `max_width` characters; no
    /// line where `max_width` is 0.
    pub fn get_lines(&self, max_width: usize) -> (lines: Vec<String>)
        ensures
            lines@.map_values(|l: String| l@) == chunks(self.description@, max_width as int),
    {
        let chars = to_chars(self.description.as_str());
        let n = chars.len();
        let mut lines: Vec<String> = Vec::new();
        if max_width == 0 {
            assert(lines@.map_values(|l: String| l@) =~= chunks(self.description@, 0));
            return lines;
        }
        let mut at: usize = 0;
        proof {
            assert(chars@.subrange(0, n as int) =~= chars@);
        }
        while at < n
            invariant
                at <= n,
                n == chars@.len(),
                max_width > 0,
                chunks(chars@, max_width as int) == lines@.map_values(|l: String| l@) + chunks(
                    chars@.subrange(at as int, n as int),
                    max_width as int,
                ),
            decreases n - at,
        {
            let end = if n - at <= max_width {
                n
            } else {
                at + max_width
            };
            let ghost before = lines@.map_values(|l: String| l@);
            let ghost rest = chars@.subrange(at as int, n as int);
            let line = from_chars(&chars, at, end);
            lines.push(line);
            proof {
                assert(lines@.map_values(|l: String| l@) =~= before.push(
                    chars@.subrange(at as int, end as int),
                ));
                if end == n {
                    assert(rest =~= chars@.subrange(at as int, end as int));
                    assert(chars@.subrange(n as int, n as int).len() == 0);
                    assert(chunks(rest, max_width as int) =~= seq![rest] + chunks(
                        chars@.subrange(end as int, n as int),
                        max_width as int,
                    ));
                } else {
                    assert(rest.subrange(0, max_width as int) =~= chars@.subrange(
                        at as int,
                        end as int,
                    ));
                    assert(rest.subrange(max_width as int, rest.len() as int) =~= chars@.subrange(
                        end as int,
                        n as int,
                    ));
                }
            }
            at = end;
        }
        assert(chars@.subrange(n as int, n as int).len() == 0);
        assert(lines@.map_values(|l: String| l@) + Seq::<Seq<char>>::empty() =~= lines@.map_values(
            |l: String| l@,
        ));
        lines
    }
}

impl CardType {
    /// The colours of a card of this type, on the dark background of cards:
    /// light grey for information, yellow for a warning, red for an error.
    pub fn style(&self) -> (style: CellStyle)
        ensures
            style.background == Some(Color::Rgb { r: 22, g: 22, b: 23 }),
            style.foreground == Some(
                match *self {
                    CardType::INFO => Color::Rgb { r: 201, g: 199, b: 205 },
                    CardType::WARNING => Color::Yellow,
                    CardType::ERROR => Color::Red,
                },
            ),
    {
        let background = Some(Color::Rgb { r: 22, g: 22, b: 23 });
        match self {
            CardType::INFO => CellStyle {
                foreground: Some(Color::Rgb { r: 201, g: 199, b: 205 }),
                background,
            },
            CardType::WARNING => CellStyle { foreground: Some(Color::Yellow), background },
            CardType::ERROR => CellStyle { foreground: Some(Color::Red), background },
        }
    }
}

impl UiElement for Card {
    /// A card is not drawn into the frame.
    fn render(&self, frame: &mut Grid<RenderCell>)
        ensures
            *final(frame) == *old(frame),
    {
    }
}

} // verus!
