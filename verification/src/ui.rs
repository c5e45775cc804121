//! The elements drawn over the text: status bar, command line, cards.

pub mod card;
pub mod command;
pub mod status_bar;
pub mod ui_element;
pub mod ui_manager;
