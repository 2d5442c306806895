use agent::protocol::{PerformanceStats, StreamChunk};
use agent::stream::{
    decode_frame, synthesize_response, useful_bytes, ChatResponse, DeltaChoice, FinishReason, FrameError,
    FunctionFragment, ResponseChoice, ResponseToolCall, StreamFrame, StreamSession, StreamTimeline,
    ToolCallFragment,
};

fn choice(content: Option<&str>, reasoning: Option<&str>, calls: Vec<ToolCallFragment>, finish: Option<FinishReason>) -> DeltaChoice {
    DeltaChoice {
        content: content.map(|s| s.to_string()),
        reasoning: reasoning.map(|s| s.to_string()),
        tool_calls: calls,
        finish_reason: finish,
    }
}

fn frag(index: u32, id: Option<&str>, name: Option<&str>, arguments: Option<&str>) -> ToolCallFragment {
    ToolCallFragment {
        index,
        id: id.map(|s| s.to_string()),
        function: Some(FunctionFragment { name: name.map(|s| s.to_string()), arguments: arguments.map(|s| s.to_string()) }),
    }
}

fn describe(c: &StreamChunk) -> String {
    match c {
        StreamChunk::SystemMessage(t) => format!("text:{}", t),
        StreamChunk::StartToolCall { index, id, name } => format!("start:{}:{}:{}", index, id, name),
        StreamChunk::AppendToolCallArgs { index, text } => format!("args:{}:{}", index, text),
        StreamChunk::PerformanceStats(s) => format!("stats:{}:{}", s.ttft_micros, s.bytes_per_sec),
    }
}

#[test]
fn frame_deltas_keep_their_order() {
    let frame = StreamFrame {
        choices: vec![choice(
            Some("hi"),
            Some("hmm"),
            vec![frag(0, Some("c0"), Some("read_file"), Some("{\"a")), frag(0, None, None, Some("\"}")), frag(1, Some(""), None, None)],
            None,
        )],
    };
    let d = decode_frame(frame).unwrap();
    let got: Vec<String> = d.chunks.iter().map(describe).collect();
    assert_eq!(got, vec!["text:hi", "text:hmm", "start:0:c0:read_file", "args:0:{\"a", "args:0:\"}"]);
    assert!(!d.finished);
}

#[test]
fn stop_and_tool_calls_end_the_stream() {
    let d = decode_frame(StreamFrame { choices: vec![choice(None, None, vec![], Some(FinishReason::Stop))] }).unwrap();
    assert!(d.finished);
    assert!(d.chunks.is_empty());
    let d = decode_frame(StreamFrame { choices: vec![choice(Some("x"), None, vec![], Some(FinishReason::ToolCalls))] }).unwrap();
    assert!(d.finished);
    assert_eq!(d.chunks.len(), 1);
}

#[test]
fn other_finish_reasons_end_the_stream_after_the_frame_deltas() {
    let d = decode_frame(StreamFrame {
        choices: vec![choice(Some("x"), Some("why"), vec![frag(0, Some("c"), Some("list_dir"), Some("{}"))], Some(FinishReason::Length))],
    })
    .unwrap();
    let got: Vec<String> = d.chunks.iter().map(describe).collect();
    assert_eq!(got, vec!["text:x", "text:why", "start:0:c:list_dir", "args:0:{}"]);
    assert!(!d.finished);
    assert_eq!(d.error, Some(FrameError::UnexpectedFinish { reason: FinishReason::Length }));
    let d = decode_frame(StreamFrame { choices: vec![choice(None, None, vec![], Some(FinishReason::ContentFilter))] }).unwrap();
    assert!(d.chunks.is_empty());
    assert_eq!(d.error, Some(FrameError::UnexpectedFinish { reason: FinishReason::ContentFilter }));
}

#[test]
fn frames_need_exactly_one_choice() {
    assert_eq!(decode_frame(StreamFrame { choices: vec![] }).err(), Some(FrameError::ChoiceCount { count: 0 }));
    let two = StreamFrame { choices: vec![choice(None, None, vec![], None), choice(None, None, vec![], None)] };
    assert_eq!(decode_frame(two).err(), Some(FrameError::ChoiceCount { count: 2 }));
}

#[test]
fn fragments_need_a_function_and_a_starting_name() {
    let no_function = ToolCallFragment { index: 4, id: Some("x".to_string()), function: None };
    let d = decode_frame(StreamFrame {
        choices: vec![choice(Some("t"), None, vec![frag(3, None, None, Some("ab")), no_function, frag(5, None, None, Some("zz"))], Some(FinishReason::Length))],
    })
    .unwrap();
    let got: Vec<String> = d.chunks.iter().map(describe).collect();
    assert_eq!(got, vec!["text:t", "args:3:ab"]);
    assert_eq!(d.error, Some(FrameError::MissingFunction { index: 4 }));
    let d = decode_frame(StreamFrame { choices: vec![choice(None, Some("r"), vec![frag(2, Some("id"), None, Some("{}"))], None)] }).unwrap();
    let got: Vec<String> = d.chunks.iter().map(describe).collect();
    assert_eq!(got, vec!["text:r"]);
    assert_eq!(d.error, Some(FrameError::MissingName { index: 2 }));
}

#[test]
fn complete_response_becomes_the_same_deltas() {
    let resp = ChatResponse {
        choices: vec![ResponseChoice {
            content: Some("On it.".to_string()),
            tool_calls: vec![
                ResponseToolCall { id: "a".to_string(), name: "list_dir".to_string(), arguments: "{}".to_string() },
                ResponseToolCall { id: "b".to_string(), name: "read_file".to_string(), arguments: "{\"target_file\":\"x\"}".to_string() },
            ],
            finish_reason: Some(FinishReason::ToolCalls),
        }],
    };
    let (chunks, error) = synthesize_response(resp).unwrap();
    assert!(error.is_none());
    let got: Vec<String> = chunks.iter().map(describe).collect();
    assert_eq!(got, vec!["text:On it.", "start:0:a:list_dir", "args:0:{}", "start:1:b:read_file", "args:1:{\"target_file\":\"x\"}"]);
}

#[test]
fn complete_response_checks_choices_and_finish() {
    assert_eq!(synthesize_response(ChatResponse { choices: vec![] }).err(), Some(FrameError::ChoiceCount { count: 0 }));
    let resp = ChatResponse {
        choices: vec![ResponseChoice { content: Some("x".to_string()), tool_calls: vec![], finish_reason: Some(FinishReason::FunctionCall) }],
    };
    let (chunks, error) = synthesize_response(resp).unwrap();
    let got: Vec<String> = chunks.iter().map(describe).collect();
    assert_eq!(got, vec!["text:x"]);
    assert_eq!(error, Some(FrameError::UnexpectedFinish { reason: FinishReason::FunctionCall }));
}

#[test]
fn useful_bytes_count_text_and_arguments() {
    let chunks = vec![
        StreamChunk::SystemMessage("h\u{e9}llo".to_string()),
        StreamChunk::StartToolCall { index: 0, id: "long id".to_string(), name: "list_dir".to_string() },
        StreamChunk::AppendToolCallArgs { index: 0, text: "ab".to_string() },
        StreamChunk::PerformanceStats(PerformanceStats { ttft_micros: 1, bytes_per_sec: 2 }),
    ];
    assert_eq!(useful_bytes(&chunks), 8);
}

#[test]
fn timeline_gives_time_to_first_byte_and_rate() {
    let mut t = StreamTimeline::new(1_000);
    assert!(t.stats().is_none());
    t.record(1_500, 10);
    t.record(2_500, 100);
    t.record(3_000, 200);
    assert_eq!(t.stats(), Some(PerformanceStats { ttft_micros: 500, bytes_per_sec: 150_000 }));
}

#[test]
fn timeline_over_no_time_has_zero_rate() {
    let mut t = StreamTimeline::new(7);
    t.record(7, 50);
    assert_eq!(t.stats(), Some(PerformanceStats { ttft_micros: 0, bytes_per_sec: 0 }));
}

#[test]
fn session_decodes_and_times_frames() {
    let mut s = StreamSession::new(0);
    let d = s.on_frame(StreamFrame { choices: vec![choice(Some("ab"), None, vec![], None)] }, 100).unwrap();
    assert_eq!(d.chunks.len(), 1);
    assert!(!s.finished);
    let d = s.on_frame(StreamFrame { choices: vec![choice(Some("cdef"), None, vec![], Some(FinishReason::Stop))] }, 200).unwrap();
    assert!(d.finished);
    assert!(s.finished);
    match s.finish() {
        Some(StreamChunk::PerformanceStats(st)) => assert_eq!(st, PerformanceStats { ttft_micros: 100, bytes_per_sec: 20_000 }),
        other => panic!("unexpected {:?}", other),
    }
    assert!(StreamSession::new(5).finish().is_none());
}

#[test]
fn timeline_saturates_at_the_largest_values() {
    let mut t = StreamTimeline::new(0);
    t.record(1, 0);
    t.record(2, u64::MAX);
    t.record(3, 5);
    assert_eq!(t.bytes_after_first, u64::MAX);
    assert_eq!(t.stats(), Some(PerformanceStats { ttft_micros: 1, bytes_per_sec: u64::MAX }));
}
