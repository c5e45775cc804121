use oxidy::buffer::Buffer;
use oxidy::highlighter::ColorEntry;
use oxidy::lsp::{
    LspPayload, LspResponse, LspResponseCapabilities, LspResponseResult, LspResponseServerInfo,
    LspSemanticResponseResult, SemanticTokensData, SemanticTokensDelta, SemanticTokensEdit,
    SemanticTokensFull, SemanticTokensLegend, SemanticTokensProvider,
};
use oxidy::plugins::theme::Theme;
use oxidy::semantic_tokens::{
    byte_span_token, decode_tokens, resolve_style, utf16_to_byte_index,
};
use oxidy::services::lsp_service::{apply_edits, LspService, LspServiceEvent, LspState};
use oxidy::types::{Color, Token};

fn names(list: &[&str]) -> Vec<String> {
    list.iter().map(|s| s.to_string()).collect()
}

fn token(text: &str, offset: usize, style: Option<Color>) -> Token {
    Token { text: text.to_string(), offset, style }
}

fn palette(entries: &[(&str, Color)]) -> Vec<ColorEntry> {
    entries.iter().map(|(n, c)| ColorEntry { name: n.to_string(), color: *c }).collect()
}

fn buffer(lines: &[&str]) -> Buffer {
    Buffer::new(names(lines), "src/main.rs".to_string())
}

fn response(result: LspPayload) -> Option<LspResponse<LspPayload>> {
    Some(LspResponse { jsonrpc: "2.0".to_string(), method: None, id: Some(1), result })
}

fn init_result(types: &[&str], modifiers: &[&str], full: Option<SemanticTokensFull>) -> LspPayload {
    LspPayload::Initialize(LspResponseResult {
        capabilities: LspResponseCapabilities {
            semanticTokensProvider: SemanticTokensProvider {
                legend: SemanticTokensLegend {
                    tokenTypes: names(types),
                    tokenModifiers: names(modifiers),
                },
                range: false,
                full,
            },
        },
        serverInfo: LspResponseServerInfo {
            name: "server".to_string(),
            version: "1".to_string(),
        },
    })
}

fn full(data: Vec<i32>, id: &str) -> LspPayload {
    LspPayload::Semantics(LspSemanticResponseResult::Full(SemanticTokensData {
        resultId: Some(id.to_string()),
        data,
    }))
}

fn delta(edits: Vec<(u32, u32, Vec<i32>)>, id: &str) -> LspPayload {
    LspPayload::Semantics(LspSemanticResponseResult::Delta(SemanticTokensDelta {
        resultId: Some(id.to_string()),
        edits: edits
            .into_iter()
            .map(|(start, delete, data)| SemanticTokensEdit { start, deleteCount: delete, data })
            .collect(),
    }))
}

/// A session that has opened a file and waits for its semantic tokens.
fn requesting(types: &[&str], modifiers: &[&str]) -> LspService {
    let mut s = LspService::new();
    assert!(s.initialize("/project").is_some());
    s.poll(response(init_result(types, modifiers, Some(SemanticTokensFull::Boolean(true)))));
    assert!(s.open_file("src/main.rs", "let foo").is_some());
    s.poll(None);
    assert!(s.request_semantic_tokens(&buffer(&["let foo"])).is_some());
    assert_eq!(s.state, LspState::RequestingSemantics);
    s
}

fn theme() -> Theme {
    Theme::builtin()
}

#[test]
fn a_new_session_is_uninitialized() {
    let s = LspService::new();
    assert_eq!(s.state, LspState::Uninitialized);
    assert!(s.data.is_none() && s.semantics.is_none() && s.last_result_id.is_none());
    assert!(s.cached_semantic_data.is_empty());
    assert!(!s.server_supports_delta);
}

#[test]
fn request_semantic_tokens_before_the_handshake_is_a_no_op() {
    let mut s = LspService::new();
    assert!(s.request_semantic_tokens(&buffer(&["let foo"])).is_none());
    assert_eq!(s.state, LspState::Uninitialized);
    for state in [
        LspState::Initializing,
        LspState::Initialized,
        LspState::OpeningFile,
        LspState::RequestingSemantics,
        LspState::SemanticsReceived,
        LspState::DeltaReceived,
    ] {
        s.set_state(state);
        assert!(s.request_semantic_tokens(&buffer(&["let foo"])).is_none());
        assert_eq!(s.state, state);
    }
}

#[test]
fn calls_are_guarded_by_the_state() {
    let mut s = LspService::new();
    assert!(s.open_file("a.rs", "x").is_none());
    assert!(s.did_change("a.rs", 2, "y").is_none());
    assert_eq!(s.state, LspState::Uninitialized);
    s.set_state(LspState::Initialized);
    assert!(s.initialize("/p").is_none());
    assert_eq!(s.state, LspState::Initialized);
    s.set_state(LspState::RequestingSemantics);
    assert!(s.did_change("a.rs", 2, "y").is_none());
    assert_eq!(s.state, LspState::RequestingSemantics);
}

#[test]
fn the_session_walks_through_its_states() {
    let mut s = LspService::new();
    let init = s.initialize("/project").unwrap();
    assert_eq!(init.jsonrpc, "2.0");
    assert_eq!(init.id, Some(1));
    assert_eq!(init.method, "initialize");
    assert_eq!(init.params.root_uri.as_deref(), Some("/project"));
    let sync = init
        .params
        .capabilities
        .unwrap()
        .text_document
        .unwrap()
        .synchronization
        .unwrap();
    assert!(sync.did_open && sync.did_change && sync.did_close);
    assert_eq!(s.state, LspState::Initializing);

    let (event, send) = s.poll(None);
    assert!(matches!(event, LspServiceEvent::Idle));
    assert!(send.is_none());

    let (event, send) = s.poll(response(init_result(
        &["keyword"],
        &[],
        Some(SemanticTokensFull::Options { delta: Some(true) }),
    )));
    assert!(matches!(event, LspServiceEvent::Initialized));
    let initialized = send.unwrap();
    assert_eq!(initialized.method, "initialized");
    assert_eq!(initialized.id, None);
    assert_eq!(s.state, LspState::Initialized);
    assert!(s.server_supports_delta);
    assert!(s.data.is_some());

    let open = s.open_file("src/main.rs", "let foo").unwrap();
    assert_eq!(open.method, "textDocument/didOpen");
    assert_eq!(open.id, None);
    assert_eq!(open.params.textDocument.uri, "src/main.rs");
    assert_eq!(open.params.textDocument.languageId, "rust");
    assert_eq!(open.params.textDocument.version, 1);
    assert_eq!(open.params.textDocument.text, "let foo");
    assert_eq!(s.state, LspState::OpeningFile);

    let (event, send) = s.poll(None);
    assert!(matches!(event, LspServiceEvent::OpenedFile));
    assert!(send.is_none());
    assert_eq!(s.state, LspState::FileOpened);

    let request = s.request_semantic_tokens(&buffer(&["let foo"])).unwrap();
    assert_eq!(request.method, "textDocument/semanticTokens/full");
    assert_eq!(request.id, Some(4));
    assert_eq!(request.params.textDocument.uri, "src/main.rs");
    assert_eq!(request.params.previousResultId, None);
    assert_eq!(s.state, LspState::RequestingSemantics);

    let (event, _) = s.poll(response(full(vec![0, 0, 3, 0, 0], "r1")));
    match event {
        LspServiceEvent::ReceivedSemantics {
            semantics: LspSemanticResponseResult::Full(data),
        } => {
            assert_eq!(data.data, vec![0, 0, 3, 0, 0]);
            assert_eq!(data.resultId.as_deref(), Some("r1"));
        }
        _ => panic!("expected semantic tokens"),
    }
    assert_eq!(s.state, LspState::SemanticsReceived);
    assert_eq!(s.cached_semantic_data, vec![0, 0, 3, 0, 0]);
    assert_eq!(s.last_result_id.as_deref(), Some("r1"));

    let change = s.did_change("src/main.rs", 7, "let bar").unwrap();
    assert_eq!(change.method, "textDocument/didChange");
    assert_eq!(change.id, None);
    assert_eq!(change.params.uri, "src/main.rs");
    assert_eq!(change.params.version, 7);
    assert_eq!(change.params.text, "let bar");
    assert_eq!(s.state, LspState::RequestingDelta);

    let (event, send) = s.poll(response(LspPayload::Other));
    assert!(matches!(event, LspServiceEvent::ReceivedDelta));
    assert!(send.is_none());
    assert_eq!(s.state, LspState::RequestingDelta);
    let again = s.request_semantic_tokens(&buffer(&["let bar"])).unwrap();
    assert_eq!(again.method, "textDocument/semanticTokens/full/delta");
    assert_eq!(again.params.previousResultId.as_deref(), Some("r1"));
    assert_eq!(s.state, LspState::RequestingSemantics);
}

#[test]
fn the_whole_array_is_asked_for_where_no_delta_can_be() {
    let mut s = LspService::new();
    s.set_state(LspState::FileOpened);
    s.server_supports_delta = true;
    let first = s.request_semantic_tokens(&buffer(&["x"])).unwrap();
    assert_eq!(first.method, "textDocument/semanticTokens/full");
    assert_eq!(first.params.previousResultId, None);
    s.set_state(LspState::FileOpened);
    s.server_supports_delta = false;
    s.last_result_id = Some("r9".to_string());
    let second = s.request_semantic_tokens(&buffer(&["x"])).unwrap();
    assert_eq!(second.method, "textDocument/semanticTokens/full");
    assert_eq!(second.params.previousResultId, None);
}

#[test]
fn notifications_are_ignored() {
    let mut s = LspService::new();
    s.set_state(LspState::OpeningFile);
    let note = LspResponse {
        jsonrpc: "2.0".to_string(),
        method: Some("$/progress".to_string()),
        id: None,
        result: LspPayload::Other,
    };
    let (event, send) = s.poll(Some(note));
    assert!(matches!(event, LspServiceEvent::Idle));
    assert!(send.is_none());
    assert_eq!(s.state, LspState::OpeningFile);
}

#[test]
fn a_response_of_the_wrong_shape_is_dropped() {
    let mut s = LspService::new();
    s.initialize("/p");
    let (event, send) = s.poll(response(full(vec![1, 2, 3, 4, 5], "x")));
    assert!(matches!(event, LspServiceEvent::Idle));
    assert!(send.is_none());
    assert_eq!(s.state, LspState::Initializing);
    assert!(s.cached_semantic_data.is_empty());

    let mut t = requesting(&["keyword"], &[]);
    let (event, _) = t.poll(response(init_result(&[], &[], None)));
    assert!(matches!(event, LspServiceEvent::Idle));
    assert_eq!(t.state, LspState::RequestingSemantics);
}

#[test]
fn the_delta_flag_follows_the_server() {
    for (full, expected) in [
        (Some(SemanticTokensFull::Options { delta: Some(true) }), true),
        (Some(SemanticTokensFull::Options { delta: Some(false) }), false),
        (Some(SemanticTokensFull::Options { delta: None }), false),
        (Some(SemanticTokensFull::Boolean(true)), false),
        (None, false),
    ] {
        let mut s = LspService::new();
        s.initialize("/p");
        s.poll(response(init_result(&[], &[], full)));
        assert_eq!(s.server_supports_delta, expected);
    }
}

#[test]
fn a_delta_is_spliced_into_the_cached_array() {
    let mut s = requesting(&["keyword"], &[]);
    s.poll(response(full(vec![0, 0, 3, 0, 0, 0, 4, 3, 0, 0], "r1")));
    s.set_state(LspState::RequestingSemantics);
    let (event, _) = s.poll(response(delta(vec![(5, 5, vec![1, 2, 3, 0, 0]), (0, 1, vec![])], "r2")));
    assert!(matches!(
        event,
        LspServiceEvent::ReceivedSemantics { semantics: LspSemanticResponseResult::Delta(_) }
    ));
    assert_eq!(s.cached_semantic_data, vec![0, 3, 0, 0, 1, 2, 3, 0, 0]);
    assert_eq!(s.last_result_id.as_deref(), Some("r2"));
    assert_eq!(s.state, LspState::SemanticsReceived);
}

#[test]
fn a_delta_that_does_not_fit_is_dropped() {
    let mut s = requesting(&["keyword"], &[]);
    s.poll(response(full(vec![0, 0, 3, 0, 0], "r1")));
    s.set_state(LspState::RequestingSemantics);
    let (event, send) = s.poll(response(delta(vec![(3, 3, vec![9])], "r2")));
    assert!(matches!(event, LspServiceEvent::RejectedDelta));
    assert!(send.is_none());
    assert_eq!(s.cached_semantic_data, vec![0, 0, 3, 0, 0]);
    assert_eq!(s.last_result_id.as_deref(), Some("r1"));
    assert_eq!(s.state, LspState::RequestingSemantics);
}

#[test]
fn apply_edits_splices_in_order() {
    let edit = |start, delete, data: Vec<i32>| SemanticTokensEdit { start, deleteCount: delete, data };
    assert_eq!(apply_edits(&vec![1, 2, 3], &vec![]), Some(vec![1, 2, 3]));
    assert_eq!(apply_edits(&vec![1, 2, 3], &vec![edit(1, 1, vec![7, 8])]), Some(vec![1, 7, 8, 3]));
    assert_eq!(apply_edits(&vec![1, 2, 3], &vec![edit(3, 0, vec![4])]), Some(vec![1, 2, 3, 4]));
    assert_eq!(
        apply_edits(&vec![1, 2, 3], &vec![edit(0, 3, vec![]), edit(0, 0, vec![5])]),
        Some(vec![5])
    );
    assert_eq!(apply_edits(&vec![1, 2, 3], &vec![edit(2, 2, vec![])]), None);
    assert_eq!(apply_edits(&vec![1, 2, 3], &vec![edit(4, 0, vec![])]), None);
    assert_eq!(apply_edits(&vec![], &vec![edit(u32::MAX, u32::MAX, vec![])]), None);
}

#[test]
fn set_tokens_decodes_relative_positions() {
    let mut s = requesting(&["keyword", "function"], &[]);
    s.poll(response(full(vec![0, 0, 3, 0, 0, 0, 4, 3, 1, 0], "r1")));
    let table = s.set_tokens(&buffer(&["let foo"]), theme());
    assert_eq!(
        table,
        vec![vec![
            token("let", 0, Some(Color::Rgb { r: 0xac, g: 0xa1, b: 0xcf })),
            token("foo", 4, Some(Color::Rgb { r: 0x92, g: 0xa2, b: 0xd5 })),
        ]]
    );
}

#[test]
fn set_tokens_without_a_legend_is_empty() {
    let mut s = LspService::new();
    s.cached_semantic_data = vec![0, 0, 3, 0, 0];
    let table = s.set_tokens(&buffer(&["let foo", "x"]), theme());
    assert_eq!(table, vec![Vec::<Token>::new(), Vec::new()]);
}

#[test]
fn decode_places_tokens_on_their_lines() {
    let colors = palette(&[("keyword", Color::Blue), ("function", Color::Green)]);
    let data = vec![0, 0, 3, 0, 0, 0, 4, 3, 1, 0, 2, 1, 2, 1, 0, 0, 3, 1, 0, 0];
    let lines = names(&["let foo", "", " fn g"]);
    let table = decode_tokens(&data, &lines, &names(&["keyword", "function"]), &vec![], &colors);
    assert_eq!(
        table,
        vec![
            vec![token("let", 0, Some(Color::Blue)), token("foo", 4, Some(Color::Green))],
            vec![],
            vec![token("fn", 1, Some(Color::Green)), token("g", 4, Some(Color::Blue))],
        ]
    );
}

#[test]
fn decode_drops_what_cannot_be_placed() {
    let colors = palette(&[("keyword", Color::Blue)]);
    let types = names(&["keyword"]);
    let lines = names(&["abcdef"]);
    let decode = |data: Vec<i32>| decode_tokens(&data, &lines, &types, &vec![], &colors);
    // A negative number makes a group malformed; the next is placed as if
    // the malformed one were not there.
    assert_eq!(
        decode(vec![0, -1, 1, 0, 0, 0, 2, 1, 0, 0]),
        vec![vec![token("c", 2, Some(Color::Blue))]]
    );
    // An unknown type places nothing but moves the position on.
    assert_eq!(
        decode(vec![0, 1, 1, 5, 0, 0, 2, 1, 0, 0]),
        vec![vec![token("d", 3, Some(Color::Blue))]]
    );
    // A line past the buffer places nothing.
    assert_eq!(decode(vec![3, 0, 1, 0, 0]), vec![Vec::<Token>::new()]);
    // Numbers that do not fill a group are ignored.
    assert_eq!(
        decode(vec![0, 0, 1, 0, 0, 0, 1, 1]),
        vec![vec![token("a", 0, Some(Color::Blue))]]
    );
    assert_eq!(decode(vec![]), vec![Vec::<Token>::new()]);
    // A token that reaches past the end of the line is cut there.
    assert_eq!(decode(vec![0, 4, 9, 0, 0]), vec![vec![token("ef", 4, Some(Color::Blue))]]);
}

#[test]
fn decode_counts_utf16_code_units() {
    let colors = palette(&[("keyword", Color::Blue)]);
    let types = names(&["keyword"]);
    let lines = names(&["𝒳é let"]);
    let table = decode_tokens(&vec![0, 4, 3, 0, 0], &lines, &types, &vec![], &colors);
    assert_eq!(table, vec![vec![token("let", 3, Some(Color::Blue))]]);
    let inside = decode_tokens(&vec![0, 1, 2, 0, 0], &lines, &types, &vec![], &colors);
    assert_eq!(inside, vec![vec![token("", 6, Some(Color::Blue))]]);
}

#[test]
fn utf16_columns_become_byte_offsets() {
    assert_eq!(utf16_to_byte_index("𝒳é let", 0), 0);
    assert_eq!(utf16_to_byte_index("𝒳é let", 2), 4);
    assert_eq!(utf16_to_byte_index("𝒳é let", 3), 6);
    assert_eq!(utf16_to_byte_index("𝒳é let", 4), 7);
    assert_eq!(utf16_to_byte_index("𝒳é let", 7), 10);
    assert_eq!(utf16_to_byte_index("𝒳é let", 1), 10);
    assert_eq!(utf16_to_byte_index("𝒳é let", 99), 10);
    assert_eq!(utf16_to_byte_index("", 3), 0);
}

#[test]
fn byte_spans_become_tokens() {
    assert_eq!(byte_span_token("𝒳é let", 4, 6, None), token("é", 1, None));
    assert_eq!(byte_span_token("abc", 2, 1, None), token("", 2, None));
}

#[test]
fn styles_prefer_the_entry_with_modifiers() {
    let colors = palette(&[
        ("variable", Color::White),
        ("variable.readonly", Color::Yellow),
        ("variable.static.readonly", Color::Red),
    ]);
    let modifiers = names(&["declaration", "static", "readonly"]);
    assert_eq!(resolve_style(&colors, "variable", &modifiers, 0), Some(Color::White));
    assert_eq!(resolve_style(&colors, "variable", &modifiers, 0b100), Some(Color::Yellow));
    assert_eq!(resolve_style(&colors, "variable", &modifiers, 0b110), Some(Color::Red));
    assert_eq!(resolve_style(&colors, "variable", &modifiers, 0b001), Some(Color::White));
    assert_eq!(resolve_style(&colors, "variable", &modifiers, 0b1000), Some(Color::White));
    assert_eq!(resolve_style(&colors, "function", &modifiers, 0b100), None);
}
