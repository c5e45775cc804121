//! The session with a language server, as a state machine: every call and
//! every message from the server is a step from one state to the next,
//! together with the message to send, if any. Reading and writing the
//! server's streams is left to the caller.

use vstd::prelude::*;
use vstd::string::*;

use crate::buffer::Buffer;
use crate::highlighter::ColorEntry;
use crate::lsp::{
    DidChangeParams, DidOpenParams, InitializeClientCapabilities, InitializeParams,
    InitializedParams, LspMessage, LspPayload, LspResponse, LspResponseResult,
    LspSemanticResponseResult, SemanticTokenParams, SemanticTokenTextDocumentItem,
    SemanticTokensData, SemanticTokensDelta, SemanticTokensEdit, SemanticTokensFull,
    TextDocumentClientCapabilities, TextDocumentItem, TextDocumentSyncClientCapabilities,
};
use crate::plugins::theme::{palette_from, theme_keys, Theme};
use crate::semantic_tokens::{decode_tokens, decoded};
use crate::types::{table_views, Token, TokenView};

verus! {

/// What a poll of the session found.
#[derive(Debug)]
pub enum LspServiceEvent {
    Initialized,
    OpenedFile,
    ReceivedDelta,
    ReceivedSemantics { semantics: LspSemanticResponseResult },
    /// A delta did not fit the cached array and was dropped; the tokens
    /// that were decoded from the array are no longer to be relied on.
    RejectedDelta,
    /// Nothing happened.
    Idle,
}

#[derive(Clone, Copy, Debug, PartialEq, Eq, Structural)]
pub enum LspState {
    Uninitialized,
    Initializing,
    Initialized,
    OpeningFile,
    FileOpened,
    RequestingSemantics,
    SemanticsReceived,
    RequestingDelta,
    DeltaReceived,
}

/// `data` with `delete` numbers from `start` on replaced by `insert`.
pub open spec fn spliced(data: Seq<i32>, start: int, delete: int, insert: Seq<i32>) -> Seq<i32> {
    data.subrange(0, start) + insert + data.subrange(start + delete, data.len() as int)
}

/// `data` after the splices `edits[from..]`, applied one after the other;
/// nothing where one of them reaches past the end of the array it is
/// applied to.
pub open spec fn edited(data: Seq<i32>, edits: Seq<SemanticTokensEdit>, from: int) -> Option<
    Seq<i32>,
>
    decreases edits.len() - from,
{
    if from < 0 || from >= edits.len() {
        Some(data)
    } else if edits[from].start + edits[from].deleteCount <= data.len() {
        edited(
            spliced(
                data,
                edits[from].start as int,
                edits[from].deleteCount as int,
                edits[from].data@,
            ),
            edits,
            from + 1,
        )
    } else {
        None
    }
}

/// Applies the splices of a delta response to `data`, if all of them fit.
pub fn apply_edits(data: &Vec<i32>, edits: &Vec<SemanticTokensEdit>) -> (out: Option<Vec<i32>>)
    ensures
        match out {
            Some(v) => edited(data@, edits@, 0) == Some(v@),
            None => edited(data@, edits@, 0) is None,
        },
{
    let mut current: Vec<i32> = Vec::new();
    let mut i: usize = 0;
    while i < data.len()
        invariant
            i <= data.len(),
            current@ == data@.subrange(0, i as int),
        decreases data.len() - i,
    {
        current.push(data[i]);
        i = i + 1;
        assert(current@ =~= data@.subrange(0, i as int));
    }
    assert(data@.subrange(0, i as int) =~= data@);
    let mut e: usize = 0;
    while e < edits.len()
        invariant
            e <= edits.len(),
            edited(data@, edits@, 0) == edited(current@, edits@, e as int),
        decreases edits.len() - e,
    {
        let edit = &edits[e];
        let start = edit.start as usize;
        let delete = edit.deleteCount as usize;
        if start > current.len() || delete > current.len() - start {
            return None;
        }
        let mut next: Vec<i32> = Vec::new();
        let mut j: usize = 0;
        while j < start
            invariant
                j <= start <= current.len(),
                next@ == current@.subrange(0, j as int),
            decreases start - j,
        {
            next.push(current[j]);
            j = j + 1;
            assert(next@ =~= current@.subrange(0, j as int));
        }
        let mut k: usize = 0;
        while k < edit.data.len()
            invariant
                k <= edit.data.len(),
                start <= current.len(),
                next@ == current@.subrange(0, start as int) + edit.data@.subrange(0, k as int),
            decreases edit.data.len() - k,
        {
            next.push(edit.data[k]);
            k = k + 1;
            assert(next@ =~= current@.subrange(0, start as int) + edit.data@.subrange(
                0,
                k as int,
            ));
        }
        assert(edit.data@.subrange(0, k as int) =~= edit.data@);
        let mut m: usize = start + delete;
        while m < current.len()
            invariant
                start + delete <= m <= current.len(),
                next@ == current@.subrange(0, start as int) + edit.data@ + current@.subrange(
                    start + delete,
                    m as int,
                ),
            decreases current.len() - m,
        {
            next.push(current[m]);
            m = m + 1;
            assert(next@ =~= current@.subrange(0, start as int) + edit.data@ + current@.subrange(
                start + delete,
                m as int,
            ));
        }
        assert(next@ == spliced(current@, start as int, delete as int, edit.data@));
        current = next;
        e = e + 1;
    }
    Some(current)
}

/// Whether two semantic tokens responses say the same.
pub open spec fn same_semantics(a: LspSemanticResponseResult, b: LspSemanticResponseResult) -> bool {
    match (a, b) {
        (LspSemanticResponseResult::Full(x), LspSemanticResponseResult::Full(y)) => x.resultId
            == y.resultId && x.data@ == y.data@,
        (LspSemanticResponseResult::Delta(x), LspSemanticResponseResult::Delta(y)) => {
            &&& x.resultId == y.resultId
            &&& x.edits@.len() == y.edits@.len()
            &&& forall|i: int|
                0 <= i < x.edits@.len() ==> {
                    &&& (#[trigger] x.edits@[i]).start == y.edits@[i].start
                    &&& x.edits@[i].deleteCount == y.edits@[i].deleteCount
                    &&& x.edits@[i].data@ == y.edits@[i].data@
                }
        },
        _ => false,
    }
}

fn copy_numbers(data: &Vec<i32>) -> (out: Vec<i32>)
    ensures
        out@ == data@,
{
    let mut out: Vec<i32> = Vec::new();
    let mut i: usize = 0;
    while i < data.len()
        invariant
            i <= data.len(),
            out@ == data@.subrange(0, i as int),
        decreases data.len() - i,
    {
        out.push(data[i]);
        i = i + 1;
        assert(out@ =~= data@.subrange(0, i as int));
    }
    assert(data@.subrange(0, i as int) =~= data@);
    out
}

fn copy_name(name: &Option<String>) -> (out: Option<String>)
    ensures
        out == *name,
{
    match name {
        Some(s) => Some(s.clone()),
        None => None,
    }
}

fn copy_semantics(r: &LspSemanticResponseResult) -> (out: LspSemanticResponseResult)
    ensures
        same_semantics(out, *r),
{
    match r {
        LspSemanticResponseResult::Full(full) => LspSemanticResponseResult::Full(
            SemanticTokensData { resultId: copy_name(&full.resultId), data: copy_numbers(&full.data) },
        ),
        LspSemanticResponseResult::Delta(delta) => {
            let mut edits: Vec<SemanticTokensEdit> = Vec::new();
            let mut i: usize = 0;
            while i < delta.edits.len()
                invariant
                    i <= delta.edits.len(),
                    edits@.len() == i,
                    forall|j: int|
                        0 <= j < i ==> {
                            &&& (#[trigger] edits@[j]).start == delta.edits@[j].start
                            &&& edits@[j].deleteCount == delta.edits@[j].deleteCount
                            &&& edits@[j].data@ == delta.edits@[j].data@
                        },
                decreases delta.edits.len() - i,
            {
                let e = &delta.edits[i];
                edits.push(
                    SemanticTokensEdit {
                        start: e.start,
                        deleteCount: e.deleteCount,
                        data: copy_numbers(&e.data),
                    },
                );
                i = i + 1;
            }
            LspSemanticResponseResult::Delta(
                SemanticTokensDelta { resultId: copy_name(&delta.resultId), edits },
            )
        },
    }
}

/// Whether a message from the server is a notification: it names a method
/// and carries no id.
pub open spec fn is_notification<T>(resp: LspResponse<T>) -> bool {
    resp.method is Some && resp.id is None
}

/// The session with one language server.
pub struct LspService {
    /// The result of `initialize`, kept for the legend.
    pub data: Option<LspResponseResult>,
    /// The last semantic tokens response.
    pub semantics: Option<LspSemanticResponseResult>,
    pub last_result_id: Option<String>,
    /// The flat array of the last semantic tokens response, deltas applied.
    pub cached_semantic_data: Vec<i32>,
    pub server_supports_delta: bool,
    pub state: LspState,
}

impl LspService {
    /// Whether `next` is in state `state` and else as `self`.
    pub open spec fn moved_to(&self, next: &LspService, state: LspState) -> bool {
        &&& next.state == state
        &&& next.data == self.data
        &&& next.semantics == self.semantics
        &&& next.last_result_id == self.last_result_id
        &&& next.cached_semantic_data == self.cached_semantic_data
        &&& next.server_supports_delta == self.server_supports_delta
    }

    /// A session that has not begun.
    pub fn new() -> (s: Self)
        ensures
            s.state == LspState::Uninitialized,
            s.data is None,
            s.semantics is None,
            s.last_result_id is None,
            s.cached_semantic_data@.len() == 0,
            !s.server_supports_delta,
    {
        Self {
            data: None,
            semantics: None,
            last_result_id: None,
            cached_semantic_data: Vec::new(),
            server_supports_delta: false,
            state: LspState::Uninitialized,
        }
    }

    pub fn set_state(&mut self, state: LspState)
        ensures
            old(self).moved_to(final(self), state),
    {
        self.state = state;
    }

    /// Begins the session: in state `Uninitialized` the `initialize`
    /// request for `root_uri` is to be sent and the session waits for its
    /// answer; in any other state nothing happens.
    pub fn initialize(&mut self, root_uri: &str) -> (send: Option<LspMessage<InitializeParams>>)
        ensures
            old(self).state == LspState::Uninitialized ==> {
                &&& old(self).moved_to(final(self), LspState::Initializing)
                &&& send matches Some(msg)
                &&& msg.jsonrpc@ == "2.0"@
                &&& msg.id == Some(1u64)
                &&& msg.method@ == "initialize"@
                &&& msg.params.root_uri matches Some(uri)
                &&& uri@ == root_uri@
                &&& msg.params.capabilities matches Some(caps)
                &&& caps.text_document matches Some(doc)
                &&& doc.synchronization == Some(
                    TextDocumentSyncClientCapabilities {
                        did_open: true,
                        did_change: true,
                        did_close: true,
                    },
                )
            },
            old(self).state != LspState::Uninitialized ==> send is None && *final(self) == *old(self),
    {
        if self.state != LspState::Uninitialized {
            return None;
        }
        let msg = LspMessage {
            jsonrpc: String::from_str("2.0"),
            id: Some(1),
            method: String::from_str("initialize"),
            params: InitializeParams {
                capabilities: Some(
                    InitializeClientCapabilities {
                        text_document: Some(
                            TextDocumentClientCapabilities {
                                synchronization: Some(
                                    TextDocumentSyncClientCapabilities {
                                        did_open: true,
                                        did_change: true,
                                        did_close: true,
                                    },
                                ),
                            },
                        ),
                    },
                ),
                root_uri: Some(String::from_str(root_uri)),
            },
        };
        self.state = LspState::Initializing;
        Some(msg)
    }

    /// Announces a document: in state `Initialized` the `didOpen`
    /// notification for `uri` with `contents` is to be sent and the session
    /// is `OpeningFile`; in any other state nothing happens.
    pub fn open_file(&mut self, uri: &str, contents: &str) -> (send: Option<
        LspMessage<DidOpenParams>,
    >)
        ensures
            old(self).state == LspState::Initialized ==> {
                &&& old(self).moved_to(final(self), LspState::OpeningFile)
                &&& send matches Some(msg)
                &&& msg.jsonrpc@ == "2.0"@
                &&& msg.id is None
                &&& msg.method@ == "textDocument/didOpen"@
                &&& msg.params.textDocument.uri@ == uri@
                &&& msg.params.textDocument.languageId@ == "rust"@
                &&& msg.params.textDocument.version == 1
                &&& msg.params.textDocument.text@ == contents@
            },
            old(self).state != LspState::Initialized ==> send is None && *final(self) == *old(self),
    {
        if self.state != LspState::Initialized {
            return None;
        }
        let msg = LspMessage {
            jsonrpc: String::from_str("2.0"),
            id: None,
            method: String::from_str("textDocument/didOpen"),
            params: DidOpenParams {
                textDocument: TextDocumentItem {
                    uri: String::from_str(uri),
                    languageId: String::from_str("rust"),
                    version: 1,
                    text: String::from_str(contents),
                },
            },
        };
        self.state = LspState::OpeningFile;
        Some(msg)
    }

    /// Whether semantic tokens may be requested in `state`.
    pub open spec fn may_request(state: LspState) -> bool {
        state == LspState::FileOpened || state == LspState::RequestingDelta
    }

    /// Whether the next request for semantic tokens asks for a delta: the
    /// server sends deltas and an earlier result has an id.
    pub open spec fn asks_delta(&self) -> bool {
        self.server_supports_delta && self.last_result_id is Some
    }

    /// Asks for the semantic tokens of `buffer`: once the file is open or a
    /// change has been announced, a request is to be sent and the session
    /// waits for its answer; in any other state nothing happens and nothing
    /// is to be sent. The request asks for a delta against the last result
    /// where the server sends deltas and there is such a result, else for
    /// the whole array.
    pub fn request_semantic_tokens(&mut self, buffer: &Buffer) -> (send: Option<
        LspMessage<SemanticTokenParams>,
    >)
        ensures
            Self::may_request(old(self).state) ==> {
                &&& old(self).moved_to(final(self), LspState::RequestingSemantics)
                &&& send matches Some(msg)
                &&& msg.jsonrpc@ == "2.0"@
                &&& msg.id == Some(4u64)
                &&& msg.params.textDocument.uri@ == buffer.path@
                &&& if old(self).asks_delta() {
                    msg.method@ == "textDocument/semanticTokens/full/delta"@
                        && msg.params.previousResultId == old(self).last_result_id
                } else {
                    msg.method@ == "textDocument/semanticTokens/full"@
                        && msg.params.previousResultId is None
                }
            },
            !Self::may_request(old(self).state) ==> send is None && *final(self) == *old(self),
    {
        if self.state != LspState::FileOpened && self.state != LspState::RequestingDelta {
            return None;
        }
        let previous = if self.server_supports_delta {
            copy_name(&self.last_result_id)
        } else {
            None
        };
        let method = match previous {
            Some(_) => String::from_str("textDocument/semanticTokens/full/delta"),
            None => String::from_str("textDocument/semanticTokens/full"),
        };
        let msg = LspMessage {
            jsonrpc: String::from_str("2.0"),
            id: Some(4),
            method,
            params: SemanticTokenParams {
                textDocument: SemanticTokenTextDocumentItem { uri: buffer.path.clone() },
                previousResultId: previous,
            },
        };
        self.state = LspState::RequestingSemantics;
        Some(msg)
    }

    /// Whether a change may be announced in `state`.
    pub open spec fn may_change(state: LspState) -> bool {
        state == LspState::FileOpened || state == LspState::SemanticsReceived
    }

    /// Announces that the document `uri` now reads `new_text`: once the
    /// file is open or its tokens have arrived, the `didChange` notification
    /// is to be sent and the session is `RequestingDelta`; in any other
    /// state nothing happens.
    pub fn did_change(&mut self, uri: &str, version: u32, new_text: &str) -> (send: Option<
        LspMessage<DidChangeParams>,
    >)
        ensures
            Self::may_change(old(self).state) ==> {
                &&& old(self).moved_to(final(self), LspState::RequestingDelta)
                &&& send matches Some(msg)
                &&& msg.jsonrpc@ == "2.0"@
                &&& msg.id is None
                &&& msg.method@ == "textDocument/didChange"@
                &&& msg.params.uri@ == uri@
                &&& msg.params.version == version
                &&& msg.params.text@ == new_text@
            },
            !Self::may_change(old(self).state) ==> send is None && *final(self) == *old(self),
    {
        if self.state != LspState::FileOpened && self.state != LspState::SemanticsReceived {
            return None;
        }
        let msg = LspMessage {
            jsonrpc: String::from_str("2.0"),
            id: None,
            method: String::from_str("textDocument/didChange"),
            params: DidChangeParams {
                uri: String::from_str(uri),
                version,
                text: String::from_str(new_text),
            },
        };
        self.state = LspState::RequestingDelta;
        Some(msg)
    }

    /// What a poll without a usable message does: a file that was being
    /// opened counts as open, and nothing else changes.
    pub open spec fn ticked(&self, next: &LspService, event: LspServiceEvent) -> bool {
        if self.state == LspState::OpeningFile {
            self.moved_to(next, LspState::FileOpened) && event is OpenedFile
        } else {
            *next == *self && event is Idle
        }
    }

    /// What the answer to `initialize` does: the result is kept, with it
    /// the legend; where the server says whether it sends deltas, that is
    /// noted; the session is `Initialized`.
    pub open spec fn initialized_by(&self, next: &LspService, result: LspResponseResult) -> bool {
        &&& next.state == LspState::Initialized
        &&& next.data == Some(result)
        &&& next.server_supports_delta == match result.capabilities.semanticTokensProvider.full {
            Some(SemanticTokensFull::Options { delta }) => delta == Some(true),
            _ => self.server_supports_delta,
        }
        &&& next.semantics == self.semantics
        &&& next.last_result_id == self.last_result_id
        &&& next.cached_semantic_data == self.cached_semantic_data
    }

    /// What a semantic tokens response with the array `data` and the result
    /// id `id` does: both are kept and the session is `SemanticsReceived`.
    pub open spec fn received(
        &self,
        next: &LspService,
        semantics: LspSemanticResponseResult,
        data: Seq<i32>,
        id: Option<String>,
    ) -> bool {
        &&& next.state == LspState::SemanticsReceived
        &&& next.cached_semantic_data@ == data
        &&& next.last_result_id == id
        &&& next.semantics == Some(semantics)
        &&& next.data == self.data
        &&& next.server_supports_delta == self.server_supports_delta
    }

    /// Takes one step with what arrived from the server, if anything did.
    ///
    /// A notification is ignored. While `Initializing`, the result of
    /// `initialize` completes the handshake and the `initialized`
    /// notification is to be sent. While `RequestingDelta`, any response
    /// reports `ReceivedDelta`. While `RequestingSemantics`, a whole array
    /// replaces the cached one and a delta is spliced into it; a delta that
    /// does not fit the cached array is dropped and reported, and the
    /// session stays as it is. In every other case, and when nothing
    /// arrived, the poll only lets an `OpeningFile` session become
    /// `FileOpened`.
    pub fn poll(&mut self, incoming: Option<LspResponse<LspPayload>>) -> (out: (
        LspServiceEvent,
        Option<LspMessage<InitializedParams>>,
    ))
        ensures
            match incoming {
                Some(resp) => if is_notification(resp) {
                    *final(self) == *old(self) && out.0 is Idle && out.1 is None
                } else {
                    match (old(self).state, resp.result) {
                        (LspState::Initializing, LspPayload::Initialize(result)) => {
                            &&& old(self).initialized_by(final(self), result)
                            &&& out.0 is Initialized
                            &&& out.1 matches Some(msg)
                            &&& msg.jsonrpc@ == "2.0"@
                            &&& msg.id is None
                            &&& msg.method@ == "initialized"@
                        },
                        (LspState::RequestingDelta, _) => *final(self) == *old(self) && out.0
                            is ReceivedDelta && out.1 is None,
                        (
                            LspState::RequestingSemantics,
                            LspPayload::Semantics(LspSemanticResponseResult::Full(full)),
                        ) => {
                            &&& old(self).received(
                                final(self),
                                LspSemanticResponseResult::Full(full),
                                full.data@,
                                full.resultId,
                            )
                            &&& out.0 matches LspServiceEvent::ReceivedSemantics { semantics }
                            &&& same_semantics(semantics, LspSemanticResponseResult::Full(full))
                            &&& out.1 is None
                        },
                        (
                            LspState::RequestingSemantics,
                            LspPayload::Semantics(LspSemanticResponseResult::Delta(delta)),
                        ) => match edited(old(self).cached_semantic_data@, delta.edits@, 0) {
                            Some(data) => {
                                &&& old(self).received(
                                    final(self),
                                    LspSemanticResponseResult::Delta(delta),
                                    data,
                                    delta.resultId,
                                )
                                &&& out.0 matches LspServiceEvent::ReceivedSemantics { semantics }
                                &&& same_semantics(
                                    semantics,
                                    LspSemanticResponseResult::Delta(delta),
                                )
                                &&& out.1 is None
                            },
                            None => *final(self) == *old(self) && out.0 is RejectedDelta && out.1
                                is None,
                        },
                        _ => old(self).ticked(final(self), out.0) && out.1 is None,
                    }
                },
                None => old(self).ticked(final(self), out.0) && out.1 is None,
            },
    {
        match incoming {
            Some(resp) => {
                if resp.method.is_some() && resp.id.is_none() {
                    return (LspServiceEvent::Idle, None);
                }
                match self.state {
                    LspState::Initializing => {
                        match resp.result {
                            LspPayload::Initialize(result) => {
                                match result.capabilities.semanticTokensProvider.full {
                                    Some(SemanticTokensFull::Options { delta }) => {
                                        self.server_supports_delta = match delta {
                                            Some(flag) => flag,
                                            None => false,
                                        };
                                    },
                                    _ => {},
                                }
                                self.data = Some(result);
                                self.state = LspState::Initialized;
                                let msg = LspMessage {
                                    jsonrpc: String::from_str("2.0"),
                                    id: None,
                                    method: String::from_str("initialized"),
                                    params: InitializedParams {  },
                                };
                                return (LspServiceEvent::Initialized, Some(msg));
                            },
                            _ => {},
                        }
                    },
                    LspState::RequestingDelta => {
                        return (LspServiceEvent::ReceivedDelta, None);
                    },
                    LspState::RequestingSemantics => {
                        match resp.result {
                            LspPayload::Semantics(semantics) => {
                                let fresh = match &semantics {
                                    LspSemanticResponseResult::Full(full) => Some(
                                        (copy_numbers(&full.data), copy_name(&full.resultId)),
                                    ),
                                    LspSemanticResponseResult::Delta(delta) => {
                                        match apply_edits(&self.cached_semantic_data, &delta.edits) {
                                            Some(data) => Some((data, copy_name(&delta.resultId))),
                                            None => None,
                                        }
                                    },
                                };
                                match fresh {
                                    Some((data, id)) => {
                                        let event = LspServiceEvent::ReceivedSemantics {
                                            semantics: copy_semantics(&semantics),
                                        };
                                        self.cached_semantic_data = data;
                                        self.last_result_id = id;
                                        self.semantics = Some(semantics);
                                        self.state = LspState::SemanticsReceived;
                                        return (event, None);
                                    },
                                    None => {
                                        return (LspServiceEvent::RejectedDelta, None);
                                    },
                                }
                            },
                            _ => {},
                        }
                    },
                    _ => {},
                }
            },
            None => {},
        }
        if self.state == LspState::OpeningFile {
            self.state = LspState::FileOpened;
            return (LspServiceEvent::OpenedFile, None);
        }
        (LspServiceEvent::Idle, None)
    }

    /// The token table that the cached semantic tokens encode for `buffer`,
    /// coloured by `theme`. Without a legend every row is empty.
    pub fn set_tokens(&self, buffer: &Buffer, theme: Theme) -> (table: Vec<Vec<Token>>)
        ensures
            match self.data {
                Some(result) => table_views(table@) == decoded(
                    self.cached_semantic_data@,
                    buffer.rows(),
                    result.capabilities.semanticTokensProvider.legend.tokenTypes@,
                    result.capabilities.semanticTokensProvider.legend.tokenModifiers@,
                    palette_from(theme.fields(), theme_keys(), 0),
                ),
                None => table_views(table@) == Seq::new(
                    buffer.rows().len(),
                    |i: int| Seq::<TokenView>::empty(),
                ),
            },
    {
        match &self.data {
            Some(result) => {
                let palette = theme.to_map();
                let legend = &result.capabilities.semanticTokensProvider.legend;
                decode_tokens(
                    &self.cached_semantic_data,
                    &buffer.lines,
                    &legend.tokenTypes,
                    &legend.tokenModifiers,
                    &palette,
                )
            },
            None => {
                let none: Vec<i32> = Vec::new();
                let names: Vec<String> = Vec::new();
                let palette: Vec<ColorEntry> = Vec::new();
                decode_tokens(&none, &buffer.lines, &names, &names, &palette)
            },
        }
    }
}

} // verus!
