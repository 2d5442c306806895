use agent::batcher::UIBatcher;
use agent::ui_state::{ChatUIModification, ChatUIState, GeneratingState};

fn add(t: &str) -> ChatUIModification {
    ChatUIModification::AddSystemMessage { text: t.to_string() }
}

fn append(index: usize, t: &str) -> ChatUIModification {
    ChatUIModification::AppendSystemMessage { index, text: t.to_string() }
}

#[test]
fn consecutive_appends_become_one_event() {
    let mut b = UIBatcher::new(100);
    b.apply(add("a")).unwrap();
    assert_eq!(b.take_due(0).len(), 1);
    b.apply(append(0, "b")).unwrap();
    b.apply(append(0, "c")).unwrap();
    b.apply(append(0, "d")).unwrap();
    assert!(!b.flush_due(50));
    assert!(b.take_due(50).is_empty());
    let out = b.take_due(100);
    assert_eq!(out.len(), 1);
    assert!(matches!(&out[0], ChatUIModification::AppendSystemMessage { index: 0, text } if text == "bcd"));
}

#[test]
fn appends_join_the_message_they_follow() {
    let mut b = UIBatcher::new(10);
    b.apply(ChatUIModification::AddUserMessage { text: "q".to_string() }).unwrap();
    b.apply(add("x")).unwrap();
    b.apply(append(1, "y")).unwrap();
    b.apply(ChatUIModification::SetGeneratingState { state: GeneratingState::Idle }).unwrap();
    b.apply(append(1, "z")).unwrap();
    let out = b.take_due(0);
    assert_eq!(out.len(), 4);
    assert!(matches!(&out[0], ChatUIModification::AddUserMessage { text } if text == "q"));
    assert!(matches!(&out[1], ChatUIModification::AddSystemMessage { text } if text == "xy"));
    assert!(matches!(&out[2], ChatUIModification::SetGeneratingState { state: GeneratingState::Idle }));
    assert!(matches!(&out[3], ChatUIModification::AppendSystemMessage { index: 1, text } if text == "z"));
}

#[test]
fn flushed_events_rebuild_the_same_state() {
    let mut b = UIBatcher::new(5);
    b.apply(ChatUIModification::AddUserMessage { text: "q".to_string() }).unwrap();
    b.apply(add("he")).unwrap();
    b.apply(append(1, "llo")).unwrap();
    b.apply(ChatUIModification::StartToolCall { name: "list_dir".to_string(), args: String::new() }).unwrap();
    b.apply(ChatUIModification::AppendToolCallArgs { index: 2, text: "{}".to_string() }).unwrap();
    let mut sink = ChatUIState::new();
    for m in b.take_due(0) {
        sink.apply(m).unwrap();
    }
    assert_eq!(format!("{:?}", sink.messages()), format!("{:?}", b.ui_state().messages()));
}

#[test]
fn invalid_events_are_refused_and_not_queued() {
    let mut b = UIBatcher::new(5);
    assert!(b.apply(append(0, "x")).is_err());
    assert!(b.next_flush_at().is_none());
    assert!(b.finish().is_empty());
}

#[test]
fn flush_waits_for_the_interval_then_shutdown_drains() {
    let mut b = UIBatcher::new(100);
    b.apply(add("a")).unwrap();
    assert_eq!(b.next_flush_at(), Some(0));
    assert_eq!(b.take_due(1_000).len(), 1);
    b.apply(ChatUIModification::SetGeneratingState { state: GeneratingState::Generating }).unwrap();
    assert_eq!(b.next_flush_at(), Some(1_100));
    assert!(b.take_due(1_099).is_empty());
    assert_eq!(b.finish().len(), 1);
    assert!(b.next_flush_at().is_none());
}

#[test]
fn appends_after_another_event_become_one_event() {
    let mut b = UIBatcher::new(100);
    b.apply(add("a")).unwrap();
    assert_eq!(b.take_due(0).len(), 1);
    b.apply(ChatUIModification::SetGeneratingState { state: GeneratingState::Generating }).unwrap();
    b.apply(append(0, "x")).unwrap();
    b.apply(append(0, "y")).unwrap();
    b.apply(append(0, "z")).unwrap();
    let out = b.take_due(100);
    assert_eq!(out.len(), 2);
    assert!(matches!(&out[0], ChatUIModification::SetGeneratingState { state: GeneratingState::Generating }));
    assert!(matches!(&out[1], ChatUIModification::AppendSystemMessage { index: 0, text } if text == "xyz"));
}
