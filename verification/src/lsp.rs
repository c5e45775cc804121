//! The messages that the editor and a language server exchange, as plain
//! values. Field names follow the wire names of the protocol.

#![allow(non_snake_case)]

use vstd::prelude::*;

verus! {

/// A request or notification to the server.
#[derive(Debug)]
pub struct LspMessage<T> {
    pub jsonrpc: String,
    /// Absent on a notification.
    pub id: Option<u64>,
    pub method: String,
    pub params: T,
}

#[derive(Debug)]
pub struct InitializeParams {
    pub capabilities: Option<InitializeClientCapabilities>,
    pub root_uri: Option<String>,
}

#[derive(Debug)]
pub struct InitializeClientCapabilities {
    pub text_document: Option<TextDocumentClientCapabilities>,
}

#[derive(Debug)]
pub struct TextDocumentClientCapabilities {
    pub synchronization: Option<TextDocumentSyncClientCapabilities>,
}

#[derive(Clone, Copy, Debug, PartialEq, Eq, Structural)]
pub struct TextDocumentSyncClientCapabilities {
    pub did_open: bool,
    pub did_change: bool,
    pub did_close: bool,
}

#[derive(Debug)]
pub struct InitializedParams {}

#[derive(Debug)]
pub struct DidOpenParams {
    pub textDocument: TextDocumentItem,
}

#[derive(Debug)]
pub struct SemanticTokenParams {
    pub textDocument: SemanticTokenTextDocumentItem,
    /// The id of the result that a delta is asked against; absent where
    /// the whole array is asked for.
    pub previousResultId: Option<String>,
}

#[derive(Debug)]
pub struct SemanticTokenTextDocumentItem {
    pub uri: String,
}

#[derive(Debug)]
pub struct TextDocumentItem {
    pub uri: String,
    pub languageId: String,
    pub version: u64,
    pub text: String,
}

/// A change notification that replaces the whole text of a document.
#[derive(Debug)]
pub struct DidChangeParams {
    pub uri: String,
    pub version: u32,
    pub text: String,
}

/// A message from the server.
#[derive(Debug)]
pub struct LspResponse<T> {
    pub jsonrpc: String,
    /// Present on a notification.
    pub method: Option<String>,
    /// Absent on a notification.
    pub id: Option<i32>,
    pub result: T,
}

/// The result of a decoded response, by its shape.
#[derive(Debug)]
pub enum LspPayload {
    Initialize(LspResponseResult),
    Semantics(LspSemanticResponseResult),
    /// Any other shape.
    Other,
}

/// A whole array of semantic tokens.
#[derive(Debug)]
pub struct SemanticTokensData {
    pub resultId: Option<String>,
    pub data: Vec<i32>,
}

/// One splice of a delta response: `deleteCount` numbers from `start` on
/// give way to `data`.
#[derive(Debug)]
pub struct SemanticTokensEdit {
    pub start: u32,
    pub deleteCount: u32,
    pub data: Vec<i32>,
}

/// The splices that turn the previous array of semantic tokens into the
/// new one.
#[derive(Debug)]
pub struct SemanticTokensDelta {
    pub resultId: Option<String>,
    pub edits: Vec<SemanticTokensEdit>,
}

#[derive(Debug)]
pub enum LspSemanticResponseResult {
    Full(SemanticTokensData),
    Delta(SemanticTokensDelta),
}

#[derive(Debug)]
pub struct LspDidOpenResponseResult {}

/// The result of `initialize`, as far as the editor reads it.
#[derive(Debug)]
pub struct LspResponseResult {
    pub capabilities: LspResponseCapabilities,
    pub serverInfo: LspResponseServerInfo,
}

#[derive(Debug)]
pub struct LspResponseCapabilities {
    pub semanticTokensProvider: SemanticTokensProvider,
}

#[derive(Debug)]
pub struct SemanticTokensProvider {
    pub legend: SemanticTokensLegend,
    pub range: bool,
    pub full: Option<SemanticTokensFull>,
}

/// The names behind the type indices and modifier bits of semantic tokens.
#[derive(Debug)]
pub struct SemanticTokensLegend {
    pub tokenTypes: Vec<String>,
    pub tokenModifiers: Vec<String>,
}

/// Whether the server sends whole arrays only (`true` or `false`) or says
/// if it also sends deltas.
#[derive(Clone, Copy, Debug, PartialEq, Eq, Structural)]
pub enum SemanticTokensFull {
    Boolean(bool),
    Options { delta: Option<bool> },
}

#[derive(Debug)]
pub struct LspResponseServerInfo {
    pub name: String,
    pub version: String,
}

} // verus!
