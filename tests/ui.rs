use agent::protocol::{format_tool_result, PerformanceStats};
use agent::text::blank;
use agent::ui::UIState;
use agent::ui_state::{ChatUIMessage, ChatUIModification, ChatUIState, ChatUIToolCall, GeneratingState, UiError};

#[test]
fn chat_state_follows_a_tool_call_through() {
    let mut s = ChatUIState::new();
    assert_eq!(s.next_message_index(), 0);
    s.apply(ChatUIModification::AddUserMessage { text: "hi".to_string() }).unwrap();
    s.apply(ChatUIModification::AddSystemMessage { text: "a".to_string() }).unwrap();
    s.apply(ChatUIModification::AppendSystemMessage { index: 1, text: "b".to_string() }).unwrap();
    s.apply(ChatUIModification::StartToolCall { name: "read_file".to_string(), args: String::new() }).unwrap();
    s.apply(ChatUIModification::AppendToolCallArgs { index: 2, text: "{}".to_string() }).unwrap();
    s.apply(ChatUIModification::StartToolCallExecution { index: 2 }).unwrap();
    s.apply(ChatUIModification::CompleteToolCall { index: 2, result: Err("gone".to_string()) }).unwrap();
    s.apply(ChatUIModification::SetGeneratingState { state: GeneratingState::Generating }).unwrap();
    s.apply(ChatUIModification::SetPerformanceStats { stats: Some(PerformanceStats { ttft_micros: 3, bytes_per_sec: 4 }) }).unwrap();
    assert_eq!(s.next_message_index(), 3);
    assert!(matches!(&s.messages()[0], ChatUIMessage::User(u) if u.text == "hi"));
    assert!(matches!(&s.messages()[1], ChatUIMessage::System(m) if m.text == "ab"));
    match &s.messages()[2] {
        ChatUIMessage::ToolCall(ChatUIToolCall::Complete { name, args, result }) => {
            assert_eq!(name, "read_file");
            assert_eq!(args, "{}");
            assert_eq!(result, &Err("gone".to_string()));
        }
        other => panic!("unexpected {:?}", other),
    }
    assert_eq!(*s.generating_state(), GeneratingState::Generating);
    assert_eq!(*s.performance_stats(), Some(PerformanceStats { ttft_micros: 3, bytes_per_sec: 4 }));
}

#[test]
fn chat_state_refuses_events_for_the_wrong_message() {
    let mut s = ChatUIState::new();
    s.apply(ChatUIModification::AddUserMessage { text: "hi".to_string() }).unwrap();
    assert_eq!(s.apply(ChatUIModification::AppendSystemMessage { index: 0, text: "x".to_string() }), Err(UiError::NotSystemMessage { index: 0 }));
    assert_eq!(s.apply(ChatUIModification::AppendToolCallArgs { index: 5, text: "x".to_string() }), Err(UiError::NotGeneratingToolCall { index: 5 }));
    assert_eq!(s.apply(ChatUIModification::StartToolCallExecution { index: 0 }), Err(UiError::NotGeneratingToolCall { index: 0 }));
    assert_eq!(s.apply(ChatUIModification::CompleteToolCall { index: 0, result: Ok(String::new()) }), Err(UiError::NotExecutingToolCall { index: 0 }));
    assert_eq!(s.messages().len(), 1);
}

#[test]
fn input_line_editing() {
    let mut u = UIState::new();
    for c in "hllo".chars() {
        u.insert_char(c);
    }
    u.insert_char('\n');
    assert_eq!(u.input_text(), "hllo");
    u.move_cursor_to_start();
    u.move_cursor_right();
    u.insert_char('e');
    assert_eq!(u.input_text(), "hello");
    assert_eq!(u.cursor_position(), 2);
    u.delete_char_backward();
    assert_eq!(u.input_text(), "hllo");
    u.delete_char_forward();
    assert_eq!(u.input_text(), "hlo");
    u.move_cursor_to_end();
    u.move_cursor_right();
    assert_eq!(u.cursor_position(), 3);
    u.delete_char_forward();
    assert_eq!(u.input_text(), "hlo");
    u.move_cursor_left();
    u.insert_char('\u{e9}');
    assert_eq!(u.input_text(), "hl\u{e9}o");
    assert_eq!(u.submit_input(), "hl\u{e9}o");
    assert_eq!(u.input_text(), "");
    assert_eq!(u.cursor_position(), 0);
    u.delete_char_backward();
    u.move_cursor_left();
    assert_eq!(u.cursor_position(), 0);
}

#[test]
fn scrolling_stays_in_range() {
    let mut u = UIState::new();
    u.scroll_up();
    assert_eq!(u.scroll_offset(), 0);
    u.scroll_down(30, 20);
    u.scroll_down(30, 20);
    assert_eq!(u.scroll_offset(), 2);
    u.scroll_to_bottom(30, 20);
    assert_eq!(u.scroll_offset(), 10);
    u.scroll_down(30, 20);
    assert_eq!(u.scroll_offset(), 10);
    u.scroll_up();
    assert_eq!(u.scroll_offset(), 9);
    u.scroll_to_bottom(5, 20);
    assert_eq!(u.scroll_offset(), 0);
    assert_eq!(u.calculate_visible_height(40), 35);
    assert_eq!(u.calculate_visible_height(4), 0);
}

#[test]
fn ui_state_applies_chat_changes() {
    let mut u = UIState::new();
    u.apply(ChatUIModification::AddUserMessage { text: "q".to_string() }).unwrap();
    assert_eq!(u.chat().messages().len(), 1);
    assert!(u.apply(ChatUIModification::StartToolCallExecution { index: 0 }).is_err());
    u.set_waiting_for_ctrl_c(true);
    assert!(u.waiting_for_ctrl_c());
}

#[test]
fn tool_results_as_the_model_sees_them() {
    assert_eq!(format_tool_result(&Ok("out".to_string())), "out");
    assert_eq!(format_tool_result(&Err("bad path".to_string())), "Error: bad path");
}

#[test]
fn blank_text_is_only_white_space() {
    assert!(blank(""));
    assert!(blank(" \t\r\n\u{3000}"));
    assert!(!blank("  x "));
}
