//! Input events, as the editor sees them.

use vstd::prelude::*;

use crate::types::{Direction, Key, Modifiers};

verus! {

#[derive(Clone, Copy, Debug, PartialEq, Eq, Hash, Structural)]
pub enum MouseButton {
    Left,
    Right,
    Middle,
}

/// What the mouse did, with the button and the cell where it did it.
#[derive(Clone, Copy, Debug, PartialEq, Eq, Hash, Structural)]
pub enum MouseType {
    Down(MouseButton, u16, u16),
    Up(MouseButton, u16, u16),
    Drag(MouseButton, u16, u16),
    Move(u16, u16),
}

#[derive(Clone, Copy, Debug, PartialEq, Eq, Structural)]
pub enum InputEvent {
    Key { key: Key, modifiers: Modifiers },
    Mouse(MouseType),
    Scroll(Direction),
}

/// The code of a key as a terminal reports it.
#[derive(Clone, Copy, Debug, PartialEq, Eq, Structural)]
pub enum KeyCode {
    Char(char),
    Enter,
    Backspace,
    Tab,
    Esc,
    Left,
    Right,
    Up,
    Down,
    /// Any other key.
    Other,
}

/// A key press as a terminal reports it.
#[derive(Clone, Copy, Debug, PartialEq, Eq, Structural)]
pub struct KeyEvent {
    pub code: KeyCode,
    pub ctrl: bool,
    pub alt: bool,
    pub shift: bool,
}

/// A source of input events; `poll` never waits.
pub trait InputHandler {
    fn poll(&mut self) -> Option<InputEvent>;
}

/// Input from a terminal.
pub struct CrosstermInput;

impl CrosstermInput {
    pub fn new() -> Self {
        Self
    }

    /// What `translate_key_event` makes of a key code.
    pub open spec fn key_of(code: KeyCode) -> Key {
        match code {
            KeyCode::Char(c) => Key::Char(c),
            KeyCode::Enter => Key::Enter,
            KeyCode::Backspace => Key::Backspace,
            KeyCode::Tab => Key::Tab,
            KeyCode::Esc => Key::Esc,
            KeyCode::Left => Key::Left,
            KeyCode::Right => Key::Right,
            KeyCode::Up => Key::Up,
            KeyCode::Down => Key::Down,
            KeyCode::Other => Key::Unknown,
        }
    }

    /// The input event of a key press: the key as the editor names it, with
    /// the modifiers that were held; a terminal reports no super key.
    pub fn translate_key_event(&mut self, event: KeyEvent) -> (input: InputEvent)
        ensures
            input == (InputEvent::Key {
                key: Self::key_of(event.code),
                modifiers: Modifiers {
                    ctrl: event.ctrl,
                    alt: event.alt,
                    shift: event.shift,
                    super_key: false,
                },
            }),
    {
        InputEvent::Key {
            key: match event.code {
                KeyCode::Char(c) => Key::Char(c),
                KeyCode::Enter => Key::Enter,
                KeyCode::Backspace => Key::Backspace,
                KeyCode::Tab => Key::Tab,
                KeyCode::Esc => Key::Esc,
                KeyCode::Left => Key::Left,
                KeyCode::Right => Key::Right,
                KeyCode::Up => Key::Up,
                KeyCode::Down => Key::Down,
                KeyCode::Other => Key::Unknown,
            },
            modifiers: Modifiers {
                ctrl: event.ctrl,
                alt: event.alt,
                shift: event.shift,
                super_key: false,
            },
        }
    }
}

/// Input from a window; its events arrive through the window's own loop.
pub struct WgpuInput;

impl WgpuInput {
    pub fn new() -> Self {
        Self
    }
}

impl InputHandler for WgpuInput {
    fn poll(&mut self) -> (event: Option<InputEvent>)
        ensures
            event is None,
    {
        None
    }
}

} // verus!
