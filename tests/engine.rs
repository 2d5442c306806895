use agent::engine::{ConversationEngine, EngineError, Message, TurnState};
use agent::protocol::{StreamChunk, ToolRequest, ToolResponse};
use agent::stream::StreamError;
use agent::ui_state::{ChatUIModification, GeneratingState};

fn fresh() -> ConversationEngine {
    ConversationEngine::new("system prompt".to_string(), vec!["context one".to_string(), "context two".to_string()])
}

fn text(t: &str) -> StreamChunk {
    StreamChunk::SystemMessage(t.to_string())
}

fn start(index: u32, id: &str, name: &str) -> StreamChunk {
    StreamChunk::StartToolCall { index, id: id.to_string(), name: name.to_string() }
}

fn args(index: u32, t: &str) -> StreamChunk {
    StreamChunk::AppendToolCallArgs { index, text: t.to_string() }
}

fn ok_result(id: &str, out: &str) -> ToolResponse {
    ToolResponse::ToolCallResult { id: id.to_string(), result: Ok(out.to_string()) }
}

fn request_parts(r: &ToolRequest) -> (String, String, String) {
    match r {
        ToolRequest::ToolCall { id, name, args } => (id.clone(), name.clone(), args.clone()),
    }
}

#[test]
fn new_engine_holds_system_prompt_and_context() {
    let e = fresh();
    assert_eq!(e.history().len(), 3);
    assert!(matches!(&e.history()[0], Message::System { text } if text == "system prompt"));
    assert!(matches!(&e.history()[1], Message::User { text } if text == "context one"));
    assert!(matches!(&e.history()[2], Message::User { text } if text == "context two"));
    assert_eq!(e.state(), TurnState::Idle);
}

#[test]
fn scenario_list_files_round_trip() {
    let mut e = fresh();
    let initial = e.history().len();
    assert!(e.submit("list files".to_string()));
    assert_eq!(e.state(), TurnState::Streaming);
    e.on_chunk(start(0, "call_1", "list_dir")).unwrap();
    e.on_chunk(args(0, "{\"target_directory\":\".\"}")).unwrap();
    let requests = e.finish_round();
    assert_eq!(requests.len(), 1);
    let (id, name, a) = request_parts(&requests[0]);
    assert_eq!(id, "call_1");
    assert_eq!(name, "list_dir");
    assert_eq!(a, "{\"target_directory\":\".\"}");
    assert_eq!(e.state(), TurnState::AwaitingTools);
    let again = e.on_tool_result(ok_result("call_1", ".:\n  src (dir)\n")).unwrap();
    assert!(again);
    assert_eq!(e.state(), TurnState::Streaming);
    e.on_chunk(text("Here are ")).unwrap();
    e.on_chunk(text("the files.")).unwrap();
    let requests = e.finish_round();
    assert!(requests.is_empty());
    assert_eq!(e.state(), TurnState::Idle);
    let h = e.history();
    assert_eq!(h.len(), initial + 4);
    assert!(matches!(&h[initial], Message::User { text } if text == "list files"));
    match &h[initial + 1] {
        Message::Assistant { text, tool_calls } => {
            assert!(text.is_none());
            assert_eq!(tool_calls.len(), 1);
            assert_eq!(tool_calls[0].id, "call_1");
            assert_eq!(tool_calls[0].name, "list_dir");
            assert_eq!(tool_calls[0].args, "{\"target_directory\":\".\"}");
        }
        other => panic!("unexpected entry {:?}", other),
    }
    assert!(matches!(&h[initial + 2], Message::Tool { id, content } if id == "call_1" && content == ".:\n  src (dir)\n"));
    match &h[initial + 3] {
        Message::Assistant { text, tool_calls } => {
            assert_eq!(text.as_deref(), Some("Here are the files."));
            assert!(tool_calls.is_empty());
        }
        other => panic!("unexpected entry {:?}", other),
    }
}

#[test]
fn scenario_server_error_keeps_only_user_message() {
    let mut e = fresh();
    let initial = e.history().len();
    assert!(e.submit("hello".to_string()));
    e.on_chunk(text("partial answer")).unwrap();
    let err = e.on_stream_error(StreamError::Status { status: 500, body: "internal error".to_string() });
    match err {
        EngineError::Stream(StreamError::Status { status, body }) => {
            assert_eq!(status, 500);
            assert_eq!(body, "internal error");
        }
        other => panic!("unexpected error {:?}", other),
    }
    assert_eq!(e.history().len(), initial + 1);
    assert!(matches!(&e.history()[initial], Message::User { text } if text == "hello"));
    assert_eq!(e.state(), TurnState::Idle);
}

#[test]
fn scenario_interleaved_tool_calls_stay_apart() {
    let mut e = fresh();
    assert!(e.submit("read two files".to_string()));
    e.on_chunk(start(0, "a", "read_file")).unwrap();
    e.on_chunk(start(1, "b", "read_file")).unwrap();
    e.on_chunk(args(0, "{\"target_file\":")).unwrap();
    e.on_chunk(args(1, "{\"target_file\":")).unwrap();
    e.on_chunk(args(1, "\"b.txt\"}")).unwrap();
    e.on_chunk(args(0, "\"a.txt\"}")).unwrap();
    let requests = e.finish_round();
    assert_eq!(requests.len(), 2);
    assert_eq!(request_parts(&requests[0]), ("a".to_string(), "read_file".to_string(), "{\"target_file\":\"a.txt\"}".to_string()));
    assert_eq!(request_parts(&requests[1]), ("b".to_string(), "read_file".to_string(), "{\"target_file\":\"b.txt\"}".to_string()));
}

#[test]
fn blank_submission_changes_nothing() {
    let mut e = fresh();
    let before = format!("{:?}", e.history());
    assert!(!e.submit("  \t\n ".to_string()));
    assert!(!e.submit(String::new()));
    assert_eq!(format!("{:?}", e.history()), before);
    assert_eq!(e.state(), TurnState::Idle);
    assert!(e.take_events().is_empty());
}

fn replay(chunks: &[(u8, u32, &str, &str)]) -> String {
    let mut e = fresh();
    e.submit("go".to_string());
    for (kind, index, a, b) in chunks {
        let c = match kind {
            0 => text(a),
            1 => start(*index, a, b),
            _ => args(*index, a),
        };
        e.on_chunk(c).unwrap();
    }
    e.finish_round();
    format!("{:?}", e.history())
}

#[test]
fn replaying_the_same_deltas_gives_the_same_history() {
    let deltas = [(0u8, 0u32, "Let me look", ""), (1, 0, "x1", "list_dir"), (1, 1, "x2", "read_file"), (2, 1, "{\"target_file\"", ""), (2, 0, "{}", ""), (2, 1, ":\"f\"}", ""), (0, 0, ".", "")];
    let first = replay(&deltas);
    let second = replay(&deltas);
    assert_eq!(first, second);
}

fn args_after(parts: &[&str]) -> String {
    let mut e = fresh();
    e.submit("go".to_string());
    e.on_chunk(start(3, "id", "read_file")).unwrap();
    for p in parts {
        e.on_chunk(args(3, p)).unwrap();
    }
    let requests = e.finish_round();
    request_parts(&requests[0]).2
}

#[test]
fn argument_text_does_not_depend_on_fragmenting() {
    let whole = args_after(&["{\"target_file\":\"main.rs\"}"]);
    assert_eq!(whole, "{\"target_file\":\"main.rs\"}");
    assert_eq!(args_after(&["{\"target", "_file\":\"ma", "in.rs\"}"]), whole);
    assert_eq!(args_after(&["{", "", "\"target_file\":\"main.rs\"", "}"]), whole);
}

#[test]
fn awaiting_tools_ends_only_after_every_result() {
    let mut e = fresh();
    e.submit("two tools".to_string());
    e.on_chunk(start(0, "a", "list_dir")).unwrap();
    e.on_chunk(start(1, "b", "read_file")).unwrap();
    assert_eq!(e.finish_round().len(), 2);
    assert_eq!(e.on_tool_result(ok_result("b", "B")).unwrap(), false);
    assert_eq!(e.state(), TurnState::AwaitingTools);
    let failed = ToolResponse::ToolCallResult { id: "a".to_string(), result: Err("no such file".to_string()) };
    assert_eq!(e.on_tool_result(failed).unwrap(), true);
    assert_eq!(e.state(), TurnState::Streaming);
    let h = e.history();
    let n = h.len();
    assert!(matches!(&h[n - 2], Message::Tool { id, content } if id == "b" && content == "B"));
    assert!(matches!(&h[n - 1], Message::Tool { id, content } if id == "a" && content == "Error: no such file"));
}

#[test]
fn unknown_tool_result_aborts_the_turn() {
    let mut e = fresh();
    e.submit("x".to_string());
    e.on_chunk(start(0, "a", "list_dir")).unwrap();
    e.finish_round();
    match e.on_tool_result(ok_result("zzz", "?")) {
        Err(EngineError::UnknownToolCall { id }) => assert_eq!(id, "zzz"),
        other => panic!("unexpected {:?}", other),
    }
    assert_eq!(e.state(), TurnState::Idle);
}

#[test]
fn fragment_for_unopened_index_aborts_the_turn() {
    let mut e = fresh();
    let initial = e.history().len();
    e.submit("x".to_string());
    e.on_chunk(text("thinking")).unwrap();
    match e.on_chunk(args(7, "{}")) {
        Err(EngineError::UnopenedIndex { index }) => assert_eq!(index, 7),
        other => panic!("unexpected {:?}", other),
    }
    assert_eq!(e.state(), TurnState::Idle);
    assert_eq!(e.history().len(), initial + 1);
}

#[test]
fn second_start_at_one_index_aborts_the_turn() {
    let mut e = fresh();
    e.submit("x".to_string());
    e.on_chunk(start(0, "a", "list_dir")).unwrap();
    match e.on_chunk(start(0, "b", "read_file")) {
        Err(EngineError::DuplicateIndex { index }) => assert_eq!(index, 0),
        other => panic!("unexpected {:?}", other),
    }
    assert_eq!(e.state(), TurnState::Idle);
}

#[test]
fn engine_events_describe_the_turn() {
    let mut e = fresh();
    e.submit("hi".to_string());
    e.on_chunk(text("Hel")).unwrap();
    e.on_chunk(text("lo")).unwrap();
    e.finish_round();
    let events = e.take_events();
    assert_eq!(events.len(), 5);
    assert!(matches!(&events[0], ChatUIModification::AddUserMessage { text } if text == "hi"));
    assert!(matches!(&events[1], ChatUIModification::SetGeneratingState { state: GeneratingState::Generating }));
    assert!(matches!(&events[2], ChatUIModification::AddSystemMessage { text } if text == "Hel"));
    assert!(matches!(&events[3], ChatUIModification::AppendSystemMessage { index: 1, text } if text == "lo"));
    assert!(matches!(&events[4], ChatUIModification::SetGeneratingState { state: GeneratingState::Idle }));
    assert!(e.take_events().is_empty());
    assert_eq!(e.ui_state().messages().len(), 2);
}
