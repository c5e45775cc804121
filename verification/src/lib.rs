//! Core of a modal text editor: text buffers, cursor and scroll arithmetic,
//! a token overlay for highlighting, and the session state machine of a
//! language analysis service.

pub mod buffer;
pub mod command;
pub mod editor;
pub mod gapfill;
pub mod highlighter;
pub mod input;
pub mod keymap;
pub mod layers;
pub mod log_manager;
pub mod lsp;
pub mod plugins;
pub mod renderer;
pub mod semantic_tokens;
pub mod services;
pub mod text;
pub mod types;
pub mod ui;
