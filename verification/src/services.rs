//! Sessions with services outside the editor process.

pub mod framing;
pub mod lsp_service;
