use vstd::prelude::*;
use vstd::string::*;

use crate::protocol::{copy_result, result_view, PerformanceStats};

verus! {

/// Whether the model is producing output right now.
#[derive(Clone, Copy, Debug, PartialEq, Eq, Structural)]
pub enum GeneratingState {
    Idle,
    Generating,
}

#[derive(Clone, Debug)]
pub struct ChatUIUserMessage {
    pub text: String,
}

#[derive(Clone, Debug)]
pub struct ChatUISystemMessage {
    pub text: String,
}

/// A tool call as the user sees it: its arguments still streaming, running,
/// or finished with a result.
#[derive(Debug)]
pub enum ChatUIToolCall {
    Generating { name: String, args: String },
    Executing { name: String, args: String },
    Complete { name: String, args: String, result: Result<String, String> },
}

#[derive(Debug)]
pub enum ChatUIMessage {
    User(ChatUIUserMessage),
    System(ChatUISystemMessage),
    ToolCall(ChatUIToolCall),
}

pub enum ToolCallView {
    Generating { name: Seq<char>, args: Seq<char> },
    Executing { name: Seq<char>, args: Seq<char> },
    Complete { name: Seq<char>, args: Seq<char>, result: Result<Seq<char>, Seq<char>> },
}

pub enum MessageView {
    User(Seq<char>),
    System(Seq<char>),
    ToolCall(ToolCallView),
}

impl View for ChatUIToolCall {
    type V = ToolCallView;

    open spec fn view(&self) -> ToolCallView {
        match self {
            ChatUIToolCall::Generating { name, args } => ToolCallView::Generating {
                name: name@,
                args: args@,
            },
            ChatUIToolCall::Executing { name, args } => ToolCallView::Executing {
                name: name@,
                args: args@,
            },
            ChatUIToolCall::Complete { name, args, result } => ToolCallView::Complete {
                name: name@,
                args: args@,
                result: result_view(*result),
            },
        }
    }
}

impl View for ChatUIMessage {
    type V = MessageView;

    open spec fn view(&self) -> MessageView {
        match self {
            ChatUIMessage::User(u) => MessageView::User(u.text@),
            ChatUIMessage::System(s) => MessageView::System(s.text@),
            ChatUIMessage::ToolCall(t) => MessageView::ToolCall(t@),
        }
    }
}

/// One change to what the user sees. Indices name a message by its position.
#[derive(Debug)]
pub enum ChatUIModification {
    AddUserMessage { text: String },
    AddSystemMessage { text: String },
    AppendSystemMessage { index: usize, text: String },
    StartToolCall { name: String, args: String },
    AppendToolCallArgs { index: usize, text: String },
    StartToolCallExecution { index: usize },
    CompleteToolCall { index: usize, result: Result<String, String> },
    SetGeneratingState { state: GeneratingState },
    SetPerformanceStats { stats: Option<PerformanceStats> },
}

pub enum ModView {
    AddUserMessage { text: Seq<char> },
    AddSystemMessage { text: Seq<char> },
    AppendSystemMessage { index: usize, text: Seq<char> },
    StartToolCall { name: Seq<char>, args: Seq<char> },
    AppendToolCallArgs { index: usize, text: Seq<char> },
    StartToolCallExecution { index: usize },
    CompleteToolCall { index: usize, result: Result<Seq<char>, Seq<char>> },
    SetGeneratingState { state: GeneratingState },
    SetPerformanceStats { stats: Option<PerformanceStats> },
}

impl View for ChatUIModification {
    type V = ModView;

    open spec fn view(&self) -> ModView {
        match self {
            ChatUIModification::AddUserMessage { text } => ModView::AddUserMessage { text: text@ },
            ChatUIModification::AddSystemMessage { text } => ModView::AddSystemMessage {
                text: text@,
            },
            ChatUIModification::AppendSystemMessage { index, text } =>
                ModView::AppendSystemMessage { index: *index, text: text@ },
            ChatUIModification::StartToolCall { name, args } => ModView::StartToolCall {
                name: name@,
                args: args@,
            },
            ChatUIModification::AppendToolCallArgs { index, text } =>
                ModView::AppendToolCallArgs { index: *index, text: text@ },
            ChatUIModification::StartToolCallExecution { index } =>
                ModView::StartToolCallExecution { index: *index },
            ChatUIModification::CompleteToolCall { index, result } => ModView::CompleteToolCall {
                index: *index,
                result: result_view(*result),
            },
            ChatUIModification::SetGeneratingState { state } => ModView::SetGeneratingState {
                state: *state,
            },
            ChatUIModification::SetPerformanceStats { stats } => ModView::SetPerformanceStats {
                stats: *stats,
            },
        }
    }
}

impl ChatUIModification {
    /// A copy that carries the same values.
    pub fn duplicate(&self) -> (r: ChatUIModification)
        ensures
            r@ == self@,
    {
        match self {
            ChatUIModification::AddUserMessage { text } => ChatUIModification::AddUserMessage {
                text: text.clone(),
            },
            ChatUIModification::AddSystemMessage { text } => ChatUIModification::AddSystemMessage {
                text: text.clone(),
            },
            ChatUIModification::AppendSystemMessage { index, text } =>
                ChatUIModification::AppendSystemMessage { index: *index, text: text.clone() },
            ChatUIModification::StartToolCall { name, args } => ChatUIModification::StartToolCall {
                name: name.clone(),
                args: args.clone(),
            },
            ChatUIModification::AppendToolCallArgs { index, text } =>
                ChatUIModification::AppendToolCallArgs { index: *index, text: text.clone() },
            ChatUIModification::StartToolCallExecution { index } =>
                ChatUIModification::StartToolCallExecution { index: *index },
            ChatUIModification::CompleteToolCall { index, result } =>
                ChatUIModification::CompleteToolCall { index: *index, result: copy_result(result) },
            ChatUIModification::SetGeneratingState { state } =>
                ChatUIModification::SetGeneratingState { state: *state },
            ChatUIModification::SetPerformanceStats { stats } =>
                ChatUIModification::SetPerformanceStats { stats: *stats },
        }
    }
}

impl Clone for ChatUIModification {
    fn clone(&self) -> (r: Self)
        ensures
            r@ == self@,
    {
        self.duplicate()
    }
}

/// Why a modification does not fit the state it is applied to.
#[derive(Clone, Copy, Debug, PartialEq, Eq, Structural)]
pub enum UiError {
    NotSystemMessage { index: usize },
    NotGeneratingToolCall { index: usize },
    NotExecutingToolCall { index: usize },
}

pub struct ChatUIStateView {
    pub messages: Seq<MessageView>,
    pub generating_state: GeneratingState,
    pub performance_stats: Option<PerformanceStats>,
}

/// The state before any message.
pub open spec fn empty_ui() -> ChatUIStateView {
    ChatUIStateView {
        messages: Seq::empty(),
        generating_state: GeneratingState::Idle,
        performance_stats: None,
    }
}

/// The state after one modification, or `None` where the modification names
/// a message of the wrong kind or one that does not exist.
pub open spec fn spec_apply(s: ChatUIStateView, m: ModView) -> Option<ChatUIStateView> {
    let msgs = s.messages;
    match m {
        ModView::AddUserMessage { text } => Some(
            ChatUIStateView { messages: msgs.push(MessageView::User(text)), ..s },
        ),
        ModView::AddSystemMessage { text } => Some(
            ChatUIStateView { messages: msgs.push(MessageView::System(text)), ..s },
        ),
        ModView::AppendSystemMessage { index, text } => {
            if index < msgs.len() && msgs[index as int] is System {
                let old_text = msgs[index as int]->System_0;
                Some(
                    ChatUIStateView {
                        messages: msgs.update(index as int, MessageView::System(old_text + text)),
                        ..s
                    },
                )
            } else {
                None
            }
        },
        ModView::StartToolCall { name, args } => Some(
            ChatUIStateView {
                messages: msgs.push(
                    MessageView::ToolCall(ToolCallView::Generating { name, args }),
                ),
                ..s
            },
        ),
        ModView::AppendToolCallArgs { index, text } => {
            if index < msgs.len() && msgs[index as int] is ToolCall
                && msgs[index as int]->ToolCall_0 is Generating {
                let call = msgs[index as int]->ToolCall_0;
                Some(
                    ChatUIStateView {
                        messages: msgs.update(
                            index as int,
                            MessageView::ToolCall(
                                ToolCallView::Generating {
                                    name: call->Generating_name,
                                    args: call->Generating_args + text,
                                },
                            ),
                        ),
                        ..s
                    },
                )
            } else {
                None
            }
        },
        ModView::StartToolCallExecution { index } => {
            if index < msgs.len() && msgs[index as int] is ToolCall
                && msgs[index as int]->ToolCall_0 is Generating {
                let call = msgs[index as int]->ToolCall_0;
                Some(
                    ChatUIStateView {
                        messages: msgs.update(
                            index as int,
                            MessageView::ToolCall(
                                ToolCallView::Executing {
                                    name: call->Generating_name,
                                    args: call->Generating_args,
                                },
                            ),
                        ),
                        ..s
                    },
                )
            } else {
                None
            }
        },
        ModView::CompleteToolCall { index, result } => {
            if index < msgs.len() && msgs[index as int] is ToolCall
                && msgs[index as int]->ToolCall_0 is Executing {
                let call = msgs[index as int]->ToolCall_0;
                Some(
                    ChatUIStateView {
                        messages: msgs.update(
                            index as int,
                            MessageView::ToolCall(
                                ToolCallView::Complete {
                                    name: call->Executing_name,
                                    args: call->Executing_args,
                                    result,
                                },
                            ),
                        ),
                        ..s
                    },
                )
            } else {
                None
            }
        },
        ModView::SetGeneratingState { state } => Some(
            ChatUIStateView { generating_state: state, ..s },
        ),
        ModView::SetPerformanceStats { stats } => Some(
            ChatUIStateView { performance_stats: stats, ..s },
        ),
    }
}

/// What the user sees of the conversation.
#[derive(Debug)]
pub struct ChatUIState {
    messages: Vec<ChatUIMessage>,
    generating_state: GeneratingState,
    performance_stats: Option<PerformanceStats>,
}

impl View for ChatUIState {
    type V = ChatUIStateView;

    closed spec fn view(&self) -> ChatUIStateView {
        ChatUIStateView {
            messages: self.messages@.map_values(|m: ChatUIMessage| m@),
            generating_state: self.generating_state,
            performance_stats: self.performance_stats,
        }
    }
}

impl ChatUIState {
    pub fn messages(&self) -> (r: &[ChatUIMessage])
        ensures
            r@.map_values(|m: ChatUIMessage| m@) == self@.messages,
    {
        self.messages.as_slice()
    }

    pub fn generating_state(&self) -> (r: &GeneratingState)
        ensures
            *r == self@.generating_state,
    {
        &self.generating_state
    }

    pub fn performance_stats(&self) -> (r: &Option<PerformanceStats>)
        ensures
            *r == self@.performance_stats,
    {
        &self.performance_stats
    }

    pub fn new() -> (r: Self)
        ensures
            r@ == empty_ui(),
    {
        let r = ChatUIState {
            messages: Vec::new(),
            generating_state: GeneratingState::Idle,
            performance_stats: None,
        };
        assert(r@.messages =~= Seq::<MessageView>::empty());
        r
    }

    /// The index that the next added message will have.
    pub fn next_message_index(&self) -> (r: usize)
        ensures
            r == self@.messages.len(),
    {
        self.messages.len()
    }

    pub fn apply(&mut self, modification: ChatUIModification) -> (r: Result<(), UiError>)
        ensures
            match spec_apply(old(self)@, modification@) {
                Some(s) => r is Ok && final(self)@ == s,
                None => r is Err && final(self)@ == old(self)@,
            },
    {
        let ghost m = modification@;
        let ghost s0 = self@;
        match modification {
            ChatUIModification::AddUserMessage { text } => {
                self.messages.push(ChatUIMessage::User(ChatUIUserMessage { text }));
                assert(self@.messages =~= s0.messages.push(MessageView::User(m->AddUserMessage_text)));
            },
            ChatUIModification::AddSystemMessage { text } => {
                self.messages.push(ChatUIMessage::System(ChatUISystemMessage { text }));
                assert(self@.messages =~= s0.messages.push(
                    MessageView::System(m->AddSystemMessage_text),
                ));
            },
            ChatUIModification::AppendSystemMessage { index, text } => {
                if index >= self.messages.len() {
                    return Err(UiError::NotSystemMessage { index });
                }
                let joined = match &self.messages[index] {
                    ChatUIMessage::System(sm) => {
                        let mut t = sm.text.clone();
                        t.append(text.as_str());
                        t
                    },
                    _ => {
                        return Err(UiError::NotSystemMessage { index });
                    },
                };
                self.messages[index] = ChatUIMessage::System(ChatUISystemMessage { text: joined });
                assert(self@.messages =~= spec_apply(s0, m)->Some_0.messages);
            },
            ChatUIModification::StartToolCall { name, args } => {
                self.messages.push(
                    ChatUIMessage::ToolCall(ChatUIToolCall::Generating { name, args }),
                );
                assert(self@.messages =~= spec_apply(s0, m)->Some_0.messages);
            },
            ChatUIModification::AppendToolCallArgs { index, text } => {
                if index >= self.messages.len() {
                    return Err(UiError::NotGeneratingToolCall { index });
                }
                let updated = match &self.messages[index] {
                    ChatUIMessage::ToolCall(ChatUIToolCall::Generating { name, args }) => {
                        let mut a = args.clone();
                        a.append(text.as_str());
                        ChatUIToolCall::Generating { name: name.clone(), args: a }
                    },
                    _ => {
                        return Err(UiError::NotGeneratingToolCall { index });
                    },
                };
                self.messages[index] = ChatUIMessage::ToolCall(updated);
                assert(self@.messages =~= spec_apply(s0, m)->Some_0.messages);
            },
            ChatUIModification::StartToolCallExecution { index } => {
                if index >= self.messages.len() {
                    return Err(UiError::NotGeneratingToolCall { index });
                }
                let updated = match &self.messages[index] {
                    ChatUIMessage::ToolCall(ChatUIToolCall::Generating { name, args }) => {
                        ChatUIToolCall::Executing { name: name.clone(), args: args.clone() }
                    },
                    _ => {
                        return Err(UiError::NotGeneratingToolCall { index });
                    },
                };
                self.messages[index] = ChatUIMessage::ToolCall(updated);
                assert(self@.messages =~= spec_apply(s0, m)->Some_0.messages);
            },
            ChatUIModification::CompleteToolCall { index, result } => {
                if index >= self.messages.len() {
                    return Err(UiError::NotExecutingToolCall { index });
                }
                let updated = match &self.messages[index] {
                    ChatUIMessage::ToolCall(ChatUIToolCall::Executing { name, args }) => {
                        ChatUIToolCall::Complete { name: name.clone(), args: args.clone(), result }
                    },
                    _ => {
                        return Err(UiError::NotExecutingToolCall { index });
                    },
                };
                self.messages[index] = ChatUIMessage::ToolCall(updated);
                assert(self@.messages =~= spec_apply(s0, m)->Some_0.messages);
            },
            ChatUIModification::SetGeneratingState { state } => {
                self.generating_state = state;
            },
            ChatUIModification::SetPerformanceStats { stats } => {
                self.performance_stats = stats;
            },
        }
        Ok(())
    }
}

} // verus!
