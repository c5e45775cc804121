//! What the configuration supplies to the editor: options, themes, the
//! status bar layout and the language servers to start.

pub mod config;
pub mod lsp;
pub mod options;
pub mod statusbar;
pub mod theme;
