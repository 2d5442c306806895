use vstd::prelude::*;
use vstd::multiset::Multiset;
use vstd::string::*;

use crate::batcher::{apply_all, joined, lemma_apply_all_push};
use crate::protocol::{
    copy_result, format_tool_result, formatted_result, result_view, ChunkView, InvocationView,
    StreamChunk, ToolRequest, ToolResponse,
};
use crate::stream::StreamError;
use crate::text::{blank, is_blank};
use crate::ui_state::{
    empty_ui, spec_apply, ChatUIModification, ChatUIState, ChatUIStateView, GeneratingState, MessageView,
    ModView, ToolCallView,
};

verus! {

broadcast use vstd::seq_lib::group_to_multiset_ensures;

/// Where a turn stands.
#[derive(Clone, Copy, Debug, PartialEq, Eq, Structural)]
pub enum TurnState {
    Idle,
    Streaming,
    AwaitingTools,
}

/// A tool call that the model asked for.
#[derive(Debug)]
pub struct ToolInvocation {
    pub id: String,
    pub name: String,
    pub args: String,
}

impl View for ToolInvocation {
    type V = InvocationView;

    open spec fn view(&self) -> InvocationView {
        InvocationView { id: self.id@, name: self.name@, args: self.args@ }
    }
}

/// One entry of the conversation history.
#[derive(Debug)]
pub enum Message {
    System { text: String },
    User { text: String },
    Assistant { text: Option<String>, tool_calls: Vec<ToolInvocation> },
    Tool { id: String, content: String },
}

pub enum HistoryEntry {
    System(Seq<char>),
    User(Seq<char>),
    Assistant { text: Option<Seq<char>>, tool_calls: Seq<InvocationView> },
    Tool { id: Seq<char>, content: Seq<char> },
}

impl View for Message {
    type V = HistoryEntry;

    open spec fn view(&self) -> HistoryEntry {
        match self {
            Message::System { text } => HistoryEntry::System(text@),
            Message::User { text } => HistoryEntry::User(text@),
            Message::Assistant { text, tool_calls } => HistoryEntry::Assistant {
                text: match text {
                    Some(t) => Some(t@),
                    None => None,
                },
                tool_calls: tool_calls@.map_values(|c: ToolInvocation| c@),
            },
            Message::Tool { id, content } => HistoryEntry::Tool { id: id@, content: content@ },
        }
    }
}

/// A tool call whose arguments are still streaming.
#[derive(Debug)]
pub struct PendingToolCall {
    pub index: u32,
    pub id: String,
    pub name: String,
    pub args: String,
    pub ui_index: usize,
}

pub struct PendingView {
    pub index: u32,
    pub id: Seq<char>,
    pub name: Seq<char>,
    pub args: Seq<char>,
    pub ui_index: usize,
}

impl View for PendingToolCall {
    type V = PendingView;

    open spec fn view(&self) -> PendingView {
        PendingView {
            index: self.index,
            id: self.id@,
            name: self.name@,
            args: self.args@,
            ui_index: self.ui_index,
        }
    }
}

/// A dispatched tool call whose result is outstanding, with the message
/// that shows it.
#[derive(Debug)]
pub struct InFlightTool {
    pub id: String,
    pub ui_index: usize,
}

pub struct InFlightView {
    pub id: Seq<char>,
    pub ui_index: usize,
}

impl View for InFlightTool {
    type V = InFlightView;

    open spec fn view(&self) -> InFlightView {
        InFlightView { id: self.id@, ui_index: self.ui_index }
    }
}

/// Why a turn was aborted.
#[derive(Debug)]
pub enum EngineError {
    /// The response could not be read.
    Stream(StreamError),
    /// Argument text came for a tool call that was never started.
    UnopenedIndex { index: u32 },
    /// A tool call was started twice at one position.
    DuplicateIndex { index: u32 },
    /// A result came for a tool call that is not outstanding.
    UnknownToolCall { id: String },
}

pub struct EngineView {
    pub history: Seq<HistoryEntry>,
    pub state: TurnState,
    pub ui: ChatUIStateView,
    /// What the presentation layer has once it holds every event handed out.
    pub shown: ChatUIStateView,
    pub events: Seq<ModView>,
    pub text: Seq<char>,
    pub text_slot: Option<usize>,
    pub pending: Seq<PendingView>,
    pub in_flight: Seq<InFlightView>,
    pub dispatched: Seq<Seq<char>>,
    pub resolved: Seq<Seq<char>>,
}

pub open spec fn is_generating(m: MessageView) -> bool {
    m is ToolCall && m->ToolCall_0 is Generating
}

pub open spec fn is_executing(m: MessageView) -> bool {
    m is ToolCall && m->ToolCall_0 is Executing
}

/// The position of the first pending call at stream position `index`, or -1.
pub open spec fn pending_pos(ps: Seq<PendingView>, index: u32) -> int {
    if exists|j: int| 0 <= j < ps.len() && ps[j].index == index && forall|k: int|
        0 <= k < j ==> ps[k].index != index {
        choose|j: int|
            0 <= j < ps.len() && ps[j].index == index && forall|k: int|
                0 <= k < j ==> ps[k].index != index
    } else {
        -1
    }
}

/// The position of the first outstanding call with `id`, or -1.
pub open spec fn flight_pos(fs: Seq<InFlightView>, id: Seq<char>) -> int {
    if exists|j: int| 0 <= j < fs.len() && fs[j].id == id && forall|k: int|
        0 <= k < j ==> fs[k].id != id {
        choose|j: int| 0 <= j < fs.len() && fs[j].id == id && forall|k: int| 0 <= k < j ==> fs[k].id != id
    } else {
        -1
    }
}

/// The ids of the outstanding calls.
pub open spec fn flight_ids(fs: Seq<InFlightView>) -> Seq<Seq<char>> {
    fs.map_values(|f: InFlightView| f.id)
}

proof fn lemma_no_ids()
    ensures
        Seq::<Seq<char>>::empty().to_multiset() == Multiset::<Seq<char>>::empty(),
        forall|m: Multiset<Seq<char>>| #[trigger] Multiset::<Seq<char>>::empty().add(m) == m,
{
    broadcast use vstd::multiset::lemma_multiset_empty_len;

    assert(Seq::<Seq<char>>::empty().to_multiset().len() == 0);
    assert forall|m: Multiset<Seq<char>>| #[trigger] Multiset::<Seq<char>>::empty().add(m) == m by {
        assert(Multiset::<Seq<char>>::empty().add(m) =~= m);
    }
}

impl EngineView {
    pub open spec fn wf(self) -> bool {
        &&& self.state == TurnState::Idle ==> self.pending.len() == 0 && self.in_flight.len() == 0
            && self.text.len() == 0 && self.text_slot is None
        &&& self.state == TurnState::Streaming ==> self.in_flight.len() == 0
        &&& self.state == TurnState::AwaitingTools ==> self.in_flight.len() > 0
            && self.pending.len() == 0 && self.text.len() == 0 && self.text_slot is None
        &&& self.text_slot matches Some(i) ==> i < self.ui.messages.len()
            && self.ui.messages[i as int] is System
        &&& forall|j: int|
            0 <= j < self.pending.len() ==> #[trigger] self.pending[j].ui_index
                < self.ui.messages.len() && is_generating(
                self.ui.messages[self.pending[j].ui_index as int],
            )
        &&& forall|j: int, k: int|
            0 <= j < self.pending.len() && 0 <= k < self.pending.len() && j != k
                ==> #[trigger] self.pending[j].ui_index != #[trigger] self.pending[k].ui_index
        &&& forall|j: int|
            0 <= j < self.in_flight.len() ==> #[trigger] self.in_flight[j].ui_index
                < self.ui.messages.len() && is_executing(
                self.ui.messages[self.in_flight[j].ui_index as int],
            )
        &&& forall|j: int, k: int|
            0 <= j < self.in_flight.len() && 0 <= k < self.in_flight.len() && j != k
                ==> #[trigger] self.in_flight[j].ui_index != #[trigger] self.in_flight[k].ui_index
        &&& apply_all(self.shown, self.events) == Some(self.ui)
        &&& self.dispatched.len() == self.resolved.len() + self.in_flight.len()
        &&& self.dispatched.to_multiset() == self.resolved.to_multiset().add(
            flight_ids(self.in_flight).to_multiset(),
        )
    }

    /// Records a presentation event.
    pub open spec fn emit(self, m: ModView) -> EngineView {
        EngineView { ui: spec_apply(self.ui, m)->Some_0, events: self.events.push(m), ..self }
    }

    /// Starts a round: a request over the history follows.
    pub open spec fn begin_round(self) -> EngineView {
        EngineView {
            state: TurnState::Streaming,
            text: Seq::empty(),
            text_slot: None,
            pending: Seq::empty(),
            ..self
        }.emit(ModView::SetGeneratingState { state: GeneratingState::Generating })
    }

    /// Drops what the failed round had collected and goes idle.
    pub open spec fn abort(self) -> EngineView {
        EngineView {
            state: TurnState::Idle,
            text: Seq::empty(),
            text_slot: None,
            pending: Seq::empty(),
            in_flight: Seq::empty(),
            dispatched: Seq::empty(),
            resolved: Seq::empty(),
            ..self
        }.emit(ModView::SetGeneratingState { state: GeneratingState::Idle })
    }

    pub open spec fn submit(self, text: Seq<char>) -> EngineView {
        if is_blank(text) {
            self
        } else {
            EngineView { history: self.history.push(HistoryEntry::User(text)), ..self }.emit(
                ModView::AddUserMessage { text },
            ).begin_round()
        }
    }

    /// The engine after one delta, or the error that aborts the turn.
    pub open spec fn on_chunk(self, c: ChunkView) -> Result<EngineView, ()> {
        match c {
            ChunkView::Text(t) => {
                let v = EngineView { text: self.text + t, ..self };
                match self.text_slot {
                    Some(i) => Ok(v.emit(ModView::AppendSystemMessage { index: i, text: t })),
                    None => Ok(
                        EngineView {
                            text_slot: Some(self.ui.messages.len() as usize),
                            ..v
                        }.emit(ModView::AddSystemMessage { text: t }),
                    ),
                }
            },
            ChunkView::Start { index, id, name } => {
                if pending_pos(self.pending, index) >= 0 {
                    Err(())
                } else {
                    let p = PendingView {
                        index,
                        id,
                        name,
                        args: Seq::empty(),
                        ui_index: self.ui.messages.len() as usize,
                    };
                    Ok(
                        EngineView { pending: self.pending.push(p), ..self }.emit(
                            ModView::StartToolCall { name, args: Seq::empty() },
                        ),
                    )
                }
            },
            ChunkView::Args { index, text } => {
                let j = pending_pos(self.pending, index);
                if j < 0 {
                    Err(())
                } else {
                    let p = self.pending[j];
                    Ok(
                        EngineView {
                            pending: self.pending.update(j, PendingView { args: p.args + text, ..p }),
                            ..self
                        }.emit(ModView::AppendToolCallArgs { index: p.ui_index, text }),
                    )
                }
            },
            ChunkView::Stats(s) => Ok(self.emit(ModView::SetPerformanceStats { stats: Some(s) })),
        }
    }

    /// The events that mark each pending call as running.
    pub open spec fn execution_events(ps: Seq<PendingView>) -> Seq<ModView> {
        ps.map_values(|p: PendingView| ModView::StartToolCallExecution { index: p.ui_index })
    }

    /// The tool calls of a round, in the order they were started.
    pub open spec fn invocations(ps: Seq<PendingView>) -> Seq<InvocationView> {
        ps.map_values(|p: PendingView| InvocationView { id: p.id, name: p.name, args: p.args })
    }

    /// The history after a round: one assistant entry where the round
    /// produced text or tool calls.
    pub open spec fn round_history(self) -> Seq<HistoryEntry> {
        if self.text.len() > 0 || self.pending.len() > 0 {
            self.history.push(
                HistoryEntry::Assistant {
                    text: if self.text.len() > 0 {
                        Some(self.text)
                    } else {
                        None
                    },
                    tool_calls: Self::invocations(self.pending),
                },
            )
        } else {
            self.history
        }
    }

    /// The engine after the stream of a round ended.
    pub open spec fn finish_round(self) -> EngineView {
        let evs = Self::execution_events(self.pending).push(
            ModView::SetGeneratingState { state: GeneratingState::Idle },
        );
        EngineView {
            history: self.round_history(),
            state: if self.pending.len() > 0 {
                TurnState::AwaitingTools
            } else {
                TurnState::Idle
            },
            ui: apply_all(self.ui, evs)->Some_0,
            shown: self.shown,
            events: self.events + evs,
            text: Seq::empty(),
            text_slot: None,
            pending: Seq::empty(),
            in_flight: self.pending.map_values(
                |p: PendingView| InFlightView { id: p.id, ui_index: p.ui_index },
            ),
            dispatched: self.pending.map_values(|p: PendingView| p.id),
            resolved: Seq::empty(),
        }
    }

    /// The engine after a tool result, or the error that aborts the turn.
    pub open spec fn on_result(self, id: Seq<char>, result: Result<Seq<char>, Seq<char>>) -> Result<
        EngineView,
        (),
    > {
        let j = flight_pos(self.in_flight, id);
        if j < 0 {
            Err(())
        } else {
            let f = self.in_flight[j];
            let v = EngineView {
                history: self.history.push(
                    HistoryEntry::Tool { id, content: formatted_result(result) },
                ),
                in_flight: self.in_flight.remove(j),
                resolved: self.resolved.push(id),
                ..self
            }.emit(ModView::CompleteToolCall { index: f.ui_index, result });
            if v.in_flight.len() == 0 {
                Ok(v.begin_round())
            } else {
                Ok(v)
            }
        }
    }
}

/// Owns the history of one conversation and decides, delta by delta and
/// result by result, what happens to it. Every change also becomes an event
/// for the presentation layer.
pub struct ConversationEngine {
    history: Vec<Message>,
    state: TurnState,
    ui: ChatUIState,
    shown: Ghost<ChatUIStateView>,
    events: Vec<ChatUIModification>,
    text: String,
    text_slot: Option<usize>,
    pending: Vec<PendingToolCall>,
    in_flight: Vec<InFlightTool>,
    dispatched: Ghost<Seq<Seq<char>>>,
    resolved: Ghost<Seq<Seq<char>>>,
}

impl View for ConversationEngine {
    type V = EngineView;

    closed spec fn view(&self) -> EngineView {
        EngineView {
            history: self.history@.map_values(|m: Message| m@),
            state: self.state,
            ui: self.ui@,
            shown: self.shown@,
            events: self.events@.map_values(|m: ChatUIModification| m@),
            text: self.text@,
            text_slot: self.text_slot,
            pending: self.pending@.map_values(|p: PendingToolCall| p@),
            in_flight: self.in_flight@.map_values(|f: InFlightTool| f@),
            dispatched: self.dispatched@,
            resolved: self.resolved@,
        }
    }
}

impl ConversationEngine {
    /// A conversation that starts with the system prompt, then the fixed
    /// context as user entries, before any turn.
    pub fn new(system_prompt: String, context: Vec<String>) -> (r: Self)
        ensures
            r@.wf(),
            r@.history == seq![HistoryEntry::System(system_prompt@)] + context@.map_values(
                |c: String| HistoryEntry::User(c@),
            ),
            r@.state == TurnState::Idle,
            r@.ui == empty_ui(),
            r@.events.len() == 0,
            r@.dispatched.len() == 0,
            r@.resolved.len() == 0,
    {
        let mut history: Vec<Message> = Vec::new();
        history.push(Message::System { text: system_prompt });
        let ghost head = history@.map_values(|m: Message| m@);
        let mut i: usize = 0;
        while i < context.len()
            invariant
                i <= context.len(),
                head == seq![HistoryEntry::System(system_prompt@)],
                history@.map_values(|m: Message| m@) == head + context@.take(i as int).map_values(
                    |c: String| HistoryEntry::User(c@),
                ),
            decreases context.len() - i,
        {
            let ghost before = history@.map_values(|m: Message| m@);
            let c = context[i].clone();
            assert(c@ == context@[i as int]@);
            history.push(Message::User { text: c });
            proof {
                let f = |c: String| HistoryEntry::User(c@);
                assert(context@.take(i + 1) =~= context@.take(i as int).push(context@[i as int]));
                assert(context@.take(i + 1).map_values(f) =~= context@.take(i as int).map_values(f).push(f(context@[i as int])));
                assert(history@.map_values(|m: Message| m@) =~= before.push(HistoryEntry::User(context@[i as int]@)));
            }
            i = i + 1;
        }
        assert(context@.take(i as int) =~= context@);
        let r = ConversationEngine {
            history,
            state: TurnState::Idle,
            ui: ChatUIState::new(),
            shown: Ghost(empty_ui()),
            events: Vec::new(),
            text: String::new(),
            text_slot: None,
            pending: Vec::new(),
            in_flight: Vec::new(),
            dispatched: Ghost(Seq::empty()),
            resolved: Ghost(Seq::empty()),
        };
        assert(r@.events =~= Seq::<ModView>::empty());
        assert(r@.pending =~= Seq::<PendingView>::empty());
        assert(r@.in_flight =~= Seq::<InFlightView>::empty());
        proof {
            lemma_no_ids();
            assert(flight_ids(r@.in_flight) =~= Seq::<Seq<char>>::empty());
        }
        r
    }

    /// The history so far.
    pub fn history(&self) -> (r: &Vec<Message>)
        ensures
            r@.map_values(|m: Message| m@) == self@.history,
    {
        &self.history
    }

    pub fn state(&self) -> (r: TurnState)
        ensures
            r == self@.state,
    {
        self.state
    }

    /// What the presentation layer shows once it has every event so far.
    pub fn ui_state(&self) -> (r: &ChatUIState)
        ensures
            r@ == self@.ui,
    {
        &self.ui
    }

    /// Hands out the presentation events recorded since the last call.
    /// Applied in order to what the presentation layer had, they give the
    /// state the engine has shown.
    pub fn take_events(&mut self) -> (r: Vec<ChatUIModification>)
        requires
            old(self)@.wf(),
        ensures
            r@.map_values(|m: ChatUIModification| m@) == old(self)@.events,
            apply_all(old(self)@.shown, r@.map_values(|m: ChatUIModification| m@)) == Some(
                old(self)@.ui,
            ),
            final(self)@ == (EngineView { events: Seq::empty(), shown: old(self)@.ui, ..old(self)@ }),
            final(self)@.wf(),
    {
        let mut r = Vec::new();
        core::mem::swap(&mut r, &mut self.events);
        self.shown = Ghost(self.ui@);
        assert(self@.events =~= Seq::<ModView>::empty());
        r
    }

    fn emit(&mut self, m: ChatUIModification)
        requires
            spec_apply(old(self)@.ui, m@) is Some,
        ensures
            final(self)@ == old(self)@.emit(m@),
            apply_all(old(self)@.shown, old(self)@.events) == Some(old(self)@.ui) ==> apply_all(
                final(self)@.shown,
                final(self)@.events,
            ) == Some(final(self)@.ui),
    {
        let ghost v0 = self@;
        proof {
            lemma_apply_all_push(v0.shown, v0.events, m@);
        }
        let copy = m.duplicate();
        let _ = self.ui.apply(copy);
        self.events.push(m);
        assert(self@.events =~= v0.events.push(m@));
    }

    fn begin_round(&mut self)
        requires
            old(self)@.wf(),
            old(self)@.in_flight.len() == 0,
        ensures
            final(self)@ == old(self)@.begin_round(),
            final(self)@.wf(),
    {
        self.state = TurnState::Streaming;
        self.text = String::new();
        self.text_slot = None;
        self.pending = Vec::new();
        assert(self@.pending =~= Seq::<PendingView>::empty());
        self.emit(ChatUIModification::SetGeneratingState { state: GeneratingState::Generating });
    }

    fn abort(&mut self)
        requires
            old(self)@.wf(),
        ensures
            final(self)@ == old(self)@.abort(),
            final(self)@.wf(),
    {
        self.state = TurnState::Idle;
        self.text = String::new();
        self.text_slot = None;
        self.pending = Vec::new();
        self.in_flight = Vec::new();
        self.dispatched = Ghost(Seq::empty());
        self.resolved = Ghost(Seq::empty());
        assert(self@.pending =~= Seq::<PendingView>::empty());
        assert(self@.in_flight =~= Seq::<InFlightView>::empty());
        proof {
            lemma_no_ids();
            assert(flight_ids(self@.in_flight) =~= Seq::<Seq<char>>::empty());
        }
        self.emit(ChatUIModification::SetGeneratingState { state: GeneratingState::Idle });
    }

    /// Takes a message from the user. White space alone is ignored; anything
    /// else is appended to the history and starts a round, after which a
    /// request over the history is owed.
    pub fn submit(&mut self, text: String) -> (issued: bool)
        requires
            old(self)@.wf(),
            old(self)@.state == TurnState::Idle,
        ensures
            final(self)@ == old(self)@.submit(text@),
            final(self)@.wf(),
            issued == !is_blank(text@),
            is_blank(text@) ==> final(self)@ == old(self)@,
    {
        if blank(text.as_str()) {
            return false;
        }
        let copy = text.clone();
        let ghost v0 = self@;
        self.history.push(Message::User { text });
        assert(self@.history =~= v0.history.push(HistoryEntry::User(copy@)));
        self.emit(ChatUIModification::AddUserMessage { text: copy });
        self.begin_round();
        true
    }
    fn find_pending(&self, index: u32) -> (r: Option<usize>)
        ensures
            match r {
                Some(j) => j == pending_pos(self@.pending, index) && j < self@.pending.len(),
                None => pending_pos(self@.pending, index) == -1,
            },
    {
        let ghost ps = self@.pending;
        let mut i: usize = 0;
        while i < self.pending.len()
            invariant
                ps == self@.pending,
                i <= ps.len(),
                forall|k: int| 0 <= k < i ==> (#[trigger] ps[k]).index != index,
            decreases ps.len() - i,
        {
            if self.pending[i].index == index {
                assert(ps[i as int].index == index);
                let ghost j = pending_pos(ps, index);
                assert(j == i) by {
                    assert(0 <= i < ps.len() && ps[i as int].index == index && forall|k: int|
                        0 <= k < i ==> ps[k].index != index);
                }
                return Some(i);
            }
            i = i + 1;
        }
        None
    }

    fn find_flight(&self, id: &String) -> (r: Option<usize>)
        ensures
            match r {
                Some(j) => j == flight_pos(self@.in_flight, id@) && j < self@.in_flight.len(),
                None => flight_pos(self@.in_flight, id@) == -1,
            },
    {
        let ghost fs = self@.in_flight;
        let mut i: usize = 0;
        while i < self.in_flight.len()
            invariant
                fs == self@.in_flight,
                i <= fs.len(),
                forall|k: int| 0 <= k < i ==> (#[trigger] fs[k]).id != id@,
            decreases fs.len() - i,
        {
            if self.in_flight[i].id == *id {
                assert(fs[i as int].id == id@);
                let ghost j = flight_pos(fs, id@);
                assert(j == i) by {
                    assert(0 <= i < fs.len() && fs[i as int].id == id@ && forall|k: int|
                        0 <= k < i ==> fs[k].id != id@);
                }
                return Some(i);
            }
            i = i + 1;
        }
        None
    }

    /// Takes the next delta of the current round's stream. Text grows the
    /// assistant's reply; a start opens a tool call at its position; argument
    /// text joins the call open at its position. A start at a position
    /// already open, or argument text at a position never opened, aborts the
    /// turn.
    pub fn on_chunk(&mut self, chunk: StreamChunk) -> (r: Result<(), EngineError>)
        requires
            old(self)@.wf(),
            old(self)@.state == TurnState::Streaming,
        ensures
            final(self)@.wf(),
            match old(self)@.on_chunk(chunk@) {
                Ok(v) => r is Ok && final(self)@ == v,
                Err(_) => final(self)@ == old(self)@.abort() && match chunk@ {
                    ChunkView::Start { index, .. } => r matches Err(
                        EngineError::DuplicateIndex { index: i },
                    ) && i == index,
                    ChunkView::Args { index, .. } => r matches Err(
                        EngineError::UnopenedIndex { index: i },
                    ) && i == index,
                    _ => false,
                },
            },
    {
        let ghost v0 = self@;
        let ghost c = chunk@;
        match chunk {
            StreamChunk::SystemMessage(t) => {
                self.text.append(t.as_str());
                match self.text_slot {
                    Some(i) => {
                        self.emit(ChatUIModification::AppendSystemMessage { index: i, text: t });
                    },
                    None => {
                        let slot = self.ui.next_message_index();
                        self.text_slot = Some(slot);
                        self.emit(ChatUIModification::AddSystemMessage { text: t });
                    },
                }
                Ok(())
            },
            StreamChunk::StartToolCall { index, id, name } => {
                match self.find_pending(index) {
                    Some(_) => {
                        self.abort();
                        return Err(EngineError::DuplicateIndex { index });
                    },
                    None => {},
                }
                let slot = self.ui.next_message_index();
                let shown = name.clone();
                self.pending.push(
                    PendingToolCall { index, id, name, args: String::new(), ui_index: slot },
                );
                assert(self@.pending =~= v0.pending.push(
                    PendingView {
                        index,
                        id: c->Start_id,
                        name: c->Start_name,
                        args: Seq::empty(),
                        ui_index: slot,
                    },
                ));
                self.emit(ChatUIModification::StartToolCall { name: shown, args: String::new() });
                Ok(())
            },
            StreamChunk::AppendToolCallArgs { index, text } => {
                let j = match self.find_pending(index) {
                    Some(j) => j,
                    None => {
                        self.abort();
                        return Err(EngineError::UnopenedIndex { index });
                    },
                };
                let p = &self.pending[j];
                let mut args = p.args.clone();
                args.append(text.as_str());
                let updated = PendingToolCall {
                    index: p.index,
                    id: p.id.clone(),
                    name: p.name.clone(),
                    args,
                    ui_index: p.ui_index,
                };
                let ui_index = p.ui_index;
                self.pending[j] = updated;
                assert(self@.pending =~= v0.pending.update(
                    j as int,
                    PendingView { args: v0.pending[j as int].args + c->Args_text, ..v0.pending[j as int] },
                ));
                self.emit(ChatUIModification::AppendToolCallArgs { index: ui_index, text });
                Ok(())
            },
            StreamChunk::PerformanceStats(st) => {
                self.emit(ChatUIModification::SetPerformanceStats { stats: Some(st) });
                Ok(())
            },
        }
    }

    /// Aborts the turn on a response that could not be read. Nothing of the
    /// failed round reaches the history.
    pub fn on_stream_error(&mut self, error: StreamError) -> (r: EngineError)
        requires
            old(self)@.wf(),
        ensures
            final(self)@ == old(self)@.abort(),
            final(self)@.wf(),
            r == EngineError::Stream(error),
    {
        self.abort();
        EngineError::Stream(error)
    }
    /// Closes the round whose stream ended: appends one assistant entry
    /// where the round produced text or tool calls, marks each tool call as
    /// running and returns the requests to dispatch, in the order the calls
    /// were started. With none, the turn is over.
    pub fn finish_round(&mut self) -> (r: Vec<ToolRequest>)
        requires
            old(self)@.wf(),
            old(self)@.state == TurnState::Streaming,
        ensures
            final(self)@ == old(self)@.finish_round(),
            final(self)@.wf(),
            r@.map_values(|q: ToolRequest| q@) == EngineView::invocations(old(self)@.pending),
    {
        let ghost v0 = self@;
        let ghost ps = v0.pending;
        let mut pending = Vec::new();
        core::mem::swap(&mut pending, &mut self.pending);
        let mut calls: Vec<ToolInvocation> = Vec::new();
        let mut requests: Vec<ToolRequest> = Vec::new();
        let mut flights: Vec<InFlightTool> = Vec::new();
        let mut i: usize = 0;
        assert(EngineView::execution_events(ps.take(0)) =~= Seq::<ModView>::empty());
        assert(v0.events + Seq::<ModView>::empty() =~= v0.events);
        while i < pending.len()
            invariant
                ps == pending@.map_values(|p: PendingToolCall| p@),
                v0.wf(),
                i <= ps.len(),
                self@.history == v0.history,
                self@.text == v0.text,
                self@.text_slot == v0.text_slot,
                self@.state == v0.state,
                self@.in_flight == v0.in_flight,
                self@.dispatched == v0.dispatched,
                self@.resolved == v0.resolved,
                self@.pending.len() == 0,
                v0 == old(self)@,
                ps == v0.pending,
                self@.shown == v0.shown,
                apply_all(self@.shown, self@.events) == Some(self@.ui),
                apply_all(v0.ui, EngineView::execution_events(ps.take(i as int))) == Some(self@.ui),
                self@.events == v0.events + EngineView::execution_events(ps.take(i as int)),
                self@.ui.messages.len() == v0.ui.messages.len(),
                forall|k: int| #![trigger ps[k]] i <= k < ps.len() ==> self@.ui.messages[ps[k].ui_index as int] == v0.ui.messages[ps[k].ui_index as int],
                forall|k: int| #![trigger ps[k]] 0 <= k < i ==> is_executing(self@.ui.messages[ps[k].ui_index as int]),
                forall|m: int| 0 <= m < v0.ui.messages.len() && (forall|k: int| 0 <= k < i ==> #[trigger] ps[k].ui_index != m) ==> #[trigger] self@.ui.messages[m] == v0.ui.messages[m],
                calls@.map_values(|c: ToolInvocation| c@) == EngineView::invocations(ps.take(i as int)),
                requests@.map_values(|q: ToolRequest| q@) == EngineView::invocations(ps.take(i as int)),
                flights@.map_values(|f: InFlightTool| f@) == ps.take(i as int).map_values(
                    |p: PendingView| InFlightView { id: p.id, ui_index: p.ui_index },
                ),
            decreases ps.len() - i,
        {
            let p = &pending[i];
            let ghost calls0 = calls@.map_values(|c: ToolInvocation| c@);
            let ghost req0 = requests@.map_values(|q: ToolRequest| q@);
            let ghost fl0 = flights@.map_values(|f: InFlightTool| f@);
            assert(ps[i as int] == p@);
            assert(v0.pending[i as int] == ps[i as int]);
            assert(is_generating(v0.ui.messages[ps[i as int].ui_index as int]));
            self.emit(ChatUIModification::StartToolCallExecution { index: p.ui_index });
            calls.push(ToolInvocation { id: p.id.clone(), name: p.name.clone(), args: p.args.clone() });
            requests.push(
                ToolRequest::ToolCall { id: p.id.clone(), name: p.name.clone(), args: p.args.clone() },
            );
            flights.push(InFlightTool { id: p.id.clone(), ui_index: p.ui_index });
            proof {
                let t = ps.take(i + 1);
                assert(t =~= ps.take(i as int).push(ps[i as int]));
                let ev = ModView::StartToolCallExecution { index: ps[i as int].ui_index };
                assert(EngineView::execution_events(t) =~= EngineView::execution_events(ps.take(i as int)).push(ev));
                lemma_apply_all_push(v0.ui, EngineView::execution_events(ps.take(i as int)), ev);
                assert(self@.events =~= v0.events + EngineView::execution_events(t));
                let inv = InvocationView { id: ps[i as int].id, name: ps[i as int].name, args: ps[i as int].args };
                assert(EngineView::invocations(t) =~= EngineView::invocations(ps.take(i as int)).push(inv));
                assert(calls@.map_values(|c: ToolInvocation| c@) =~= calls0.push(inv));
                assert(requests@.map_values(|q: ToolRequest| q@) =~= req0.push(inv));
                assert(flights@.map_values(|f: InFlightTool| f@) =~= fl0.push(InFlightView { id: ps[i as int].id, ui_index: ps[i as int].ui_index }));
                assert forall|k: int| #![trigger ps[k]] i < k < ps.len() implies self@.ui.messages[ps[k].ui_index as int] == v0.ui.messages[ps[k].ui_index as int] by {
                    assert(v0.pending[k] == ps[k]);
                    assert(ps[k].ui_index != ps[i as int].ui_index);
                }
                assert forall|k: int| #![trigger ps[k]] 0 <= k < i ==> is_executing(self@.ui.messages[ps[k].ui_index as int]) by {
                    if 0 <= k < i {
                        assert(v0.pending[k] == ps[k]);
                        assert(ps[k].ui_index != ps[i as int].ui_index);
                    }
                }
                assert(flights@.map_values(|f: InFlightTool| f@) =~= t.map_values(
                    |p: PendingView| InFlightView { id: p.id, ui_index: p.ui_index },
                ));
            }
            i = i + 1;
        }
        assert(ps.take(i as int) =~= ps);
        let mut text = String::new();
        core::mem::swap(&mut text, &mut self.text);
        self.text_slot = None;
        let has_text = !text.as_str().is_empty();
        let has_calls = calls.len() > 0;
        if has_text || has_calls {
            let content = if has_text {
                Some(text)
            } else {
                None
            };
            self.history.push(Message::Assistant { text: content, tool_calls: calls });
        }
        assert(self@.history =~= v0.round_history());
        self.in_flight = flights;
        self.dispatched = Ghost(ps.map_values(|p: PendingView| p.id));
        self.resolved = Ghost(Seq::empty());
        self.state = if has_calls {
            TurnState::AwaitingTools
        } else {
            TurnState::Idle
        };
        assert(self@.pending =~= Seq::<PendingView>::empty());
        self.emit(ChatUIModification::SetGeneratingState { state: GeneratingState::Idle });
        proof {
            let evs = EngineView::execution_events(ps);
            let idle = ModView::SetGeneratingState { state: GeneratingState::Idle };
            lemma_apply_all_push(v0.ui, evs, idle);
            assert(self@.events =~= v0.events + evs.push(idle));
            assert(self@.in_flight =~= v0.finish_round().in_flight);
            assert(self@.text =~= Seq::<char>::empty());
            assert(self@ == v0.finish_round());
            lemma_no_ids();
            assert(flight_ids(self@.in_flight) =~= self@.dispatched);
            assert forall|j: int| 0 <= j < self@.in_flight.len() implies #[trigger] self@.in_flight[j].ui_index
                < self@.ui.messages.len() && is_executing(self@.ui.messages[self@.in_flight[j].ui_index as int]) by {
                assert(self@.in_flight[j].ui_index == ps[j].ui_index);
            }
        }
        requests
    }

    /// Takes the result of a dispatched tool call: it becomes a tool entry
    /// of the history (an error as `Error: ` and its message). Once every
    /// call of the round has its result, the next round starts and `true`
    /// says that a request is owed. A result for a call that is not
    /// outstanding aborts the turn.
    pub fn on_tool_result(&mut self, response: ToolResponse) -> (r: Result<bool, EngineError>)
        requires
            old(self)@.wf(),
            old(self)@.state == TurnState::AwaitingTools,
        ensures
            final(self)@.wf(),
            match old(self)@.on_result(response.id_view(), response.result_view()) {
                Ok(v) => r == Ok::<bool, EngineError>(v.state == TurnState::Streaming)
                    && final(self)@ == v,
                Err(_) => {
                    &&& final(self)@ == old(self)@.abort()
                    &&& (r matches Err(EngineError::UnknownToolCall { id }) && id@
                        == response.id_view())
                },
            },
            r is Ok && final(self)@.state != TurnState::AwaitingTools ==> final(self)@.resolved.len()
                == final(self)@.dispatched.len() && final(self)@.resolved.to_multiset()
                == final(self)@.dispatched.to_multiset(),
    {
        let ghost v0 = self@;
        let ToolResponse::ToolCallResult { id, result } = response;
        let j = match self.find_flight(&id) {
            Some(j) => j,
            None => {
                self.abort();
                return Err(EngineError::UnknownToolCall { id });
            },
        };
        let content = format_tool_result(&result);
        self.history.push(Message::Tool { id: id.clone(), content });
        assert(self@.history =~= v0.history.push(
            HistoryEntry::Tool { id: id@, content: formatted_result(result_view(result)) },
        ));
        let f = self.in_flight.remove(j);
        assert(self@.in_flight =~= v0.in_flight.remove(j as int));
        self.resolved = Ghost(self.resolved@.push(id@));
        self.emit(ChatUIModification::CompleteToolCall { index: f.ui_index, result });
        proof {
            let ids0 = flight_ids(v0.in_flight);
            assert(flight_ids(self@.in_flight) =~= ids0.remove(j as int));
            assert(ids0[j as int] == id@);
            assert(ids0.to_multiset().count(id@) > 0) by {
                assert(ids0.contains(id@));
            }
            assert(self@.resolved.to_multiset().add(flight_ids(self@.in_flight).to_multiset())
                =~= v0.resolved.to_multiset().add(ids0.to_multiset()));
            assert forall|a: int| 0 <= a < self@.in_flight.len() implies #[trigger] self@.in_flight[a].ui_index
                < self@.ui.messages.len() && is_executing(self@.ui.messages[self@.in_flight[a].ui_index as int]) by {
                let b = if a < j { a } else { a + 1 };
                assert(self@.in_flight[a] == v0.in_flight[b]);
                assert(b != j);
            }
            assert forall|a: int, b: int| 0 <= a < self@.in_flight.len() && 0 <= b < self@.in_flight.len() && a != b
                implies #[trigger] self@.in_flight[a].ui_index != #[trigger] self@.in_flight[b].ui_index by {
                let a2 = if a < j { a } else { a + 1 };
                let b2 = if b < j { b } else { b + 1 };
                assert(self@.in_flight[a] == v0.in_flight[a2]);
                assert(self@.in_flight[b] == v0.in_flight[b2]);
            }
        }
        if self.in_flight.len() == 0 {
            let ghost v1 = self@;
            self.state = TurnState::Streaming;
            assert(self@ == (EngineView { state: TurnState::Streaming, ..v1 }));
            self.begin_round();
            Ok(true)
        } else {
            Ok(false)
        }
    }
}

} // verus!

verus! {

/// The engine after a sequence of deltas, or `Err` where one aborts the turn.
pub open spec fn run_chunks(e: EngineView, cs: Seq<ChunkView>) -> Result<EngineView, ()>
    decreases cs.len(),
{
    if cs.len() == 0 {
        Ok(e)
    } else {
        match run_chunks(e, cs.drop_last()) {
            Ok(v) => v.on_chunk(cs.last()),
            Err(_) => Err(()),
        }
    }
}

/// One argument fragment at stream position `index` for each of `frags`.
pub open spec fn arg_chunks(index: u32, frags: Seq<Seq<char>>) -> Seq<ChunkView> {
    frags.map_values(|t: Seq<char>| ChunkView::Args { index, text: t })
}

/// Whether two pending lists hold the same calls, wherever they are shown.
pub open spec fn same_calls(a: Seq<PendingView>, b: Seq<PendingView>) -> bool {
    &&& a.len() == b.len()
    &&& forall|k: int|
        0 <= k < a.len() ==> (#[trigger] a[k]).index == b[k].index && a[k].id == b[k].id
            && a[k].name == b[k].name && a[k].args == b[k].args
}

/// Whether two engines are at the same point of a round as far as the
/// history is concerned; what they have shown may differ.
pub open spec fn same_round(a: EngineView, b: EngineView) -> bool {
    &&& a.history == b.history
    &&& a.text == b.text
    &&& same_calls(a.pending, b.pending)
}

proof fn lemma_pending_pos_congruent(a: Seq<PendingView>, b: Seq<PendingView>, index: u32)
    requires
        a.len() == b.len(),
        forall|k: int| 0 <= k < a.len() ==> (#[trigger] a[k]).index == b[k].index,
    ensures
        pending_pos(a, index) == pending_pos(b, index),
{
    if exists|j: int| 0 <= j < a.len() && a[j].index == index && forall|k: int|
        0 <= k < j ==> a[k].index != index {
        let j = choose|j: int|
            0 <= j < a.len() && a[j].index == index && forall|k: int|
                0 <= k < j ==> a[k].index != index;
        assert(0 <= j < b.len() && b[j].index == index && forall|k: int|
            0 <= k < j ==> b[k].index != index) by {
            assert forall|k: int| 0 <= k < j implies b[k].index != index by {
                assert(a[k].index == b[k].index);
            }
        }
        let j2 = pending_pos(b, index);
        assert(0 <= j2 < b.len() && b[j2].index == index && forall|k: int|
            0 <= k < j2 ==> b[k].index != index);
        if j2 < j {
            assert(a[j2].index == b[j2].index);
        }
        if j < j2 {
            assert(b[j].index == index);
        }
    } else {
        assert(!exists|j: int| 0 <= j < b.len() && b[j].index == index && forall|k: int|
            0 <= k < j ==> b[k].index != index) by {
            if exists|j: int| 0 <= j < b.len() && b[j].index == index && forall|k: int|
                0 <= k < j ==> b[k].index != index {
                let j = choose|j: int|
                    0 <= j < b.len() && b[j].index == index && forall|k: int|
                        0 <= k < j ==> b[k].index != index;
                assert(a[j].index == b[j].index);
                assert forall|k: int| 0 <= k < j implies a[k].index != index by {
                    assert(a[k].index == b[k].index);
                }
            }
        }
    }
}

/// Determinism: a round's history is a function of the history it starts
/// from and the deltas it receives. Two engines at the same point of a
/// round, fed the same deltas, both abort or both reach the same point, and
/// the round then leaves the same history in both, whatever either had shown.
pub proof fn lemma_history_determined(a: EngineView, b: EngineView, cs: Seq<ChunkView>)
    requires
        same_round(a, b),
    ensures
        run_chunks(a, cs) is Ok == run_chunks(b, cs) is Ok,
        run_chunks(a, cs) is Ok ==> same_round(run_chunks(a, cs)->Ok_0, run_chunks(b, cs)->Ok_0),
        run_chunks(a, cs) is Ok ==> run_chunks(a, cs)->Ok_0.finish_round().history == run_chunks(
            b,
            cs,
        )->Ok_0.finish_round().history,
    decreases cs.len(),
{
    if cs.len() > 0 {
        lemma_history_determined(a, b, cs.drop_last());
        if run_chunks(a, cs.drop_last()) is Ok {
            let va = run_chunks(a, cs.drop_last())->Ok_0;
            let vb = run_chunks(b, cs.drop_last())->Ok_0;
            let c = cs.last();
            lemma_pending_pos_congruent(va.pending, vb.pending, c->Start_index);
            lemma_pending_pos_congruent(va.pending, vb.pending, c->Args_index);
            if va.on_chunk(c) is Ok {
                let ra = va.on_chunk(c)->Ok_0;
                let rb = vb.on_chunk(c)->Ok_0;
                if c is Args {
                    let j = pending_pos(va.pending, c->Args_index);
                    assert(va.pending[j].args == vb.pending[j].args);
                }
                assert(same_calls(ra.pending, rb.pending));
            }
        }
    }
    if run_chunks(a, cs) is Ok {
        let ra = run_chunks(a, cs)->Ok_0;
        let rb = run_chunks(b, cs)->Ok_0;
        assert(EngineView::invocations(ra.pending) =~= EngineView::invocations(rb.pending));
    }
}

/// Argument accumulation: fragments at the position of an open tool call
/// add their texts, joined in order, to that call's arguments and to no
/// other call.
pub proof fn lemma_fragments_accumulate(e: EngineView, index: u32, frags: Seq<Seq<char>>)
    requires
        pending_pos(e.pending, index) >= 0,
    ensures
        run_chunks(e, arg_chunks(index, frags)) matches Ok(v) && v.pending.len() == e.pending.len()
            && pending_pos(v.pending, index) == pending_pos(e.pending, index) && v.history
            == e.history && v.text == e.text && (forall|k: int|
            0 <= k < e.pending.len() && k != pending_pos(e.pending, index) ==> v.pending[k]
                == e.pending[k]) && v.pending[pending_pos(e.pending, index)] == (PendingView {
            args: e.pending[pending_pos(e.pending, index)].args + joined(frags),
            ..e.pending[pending_pos(e.pending, index)]
        }),
    decreases frags.len(),
{
    let j = pending_pos(e.pending, index);
    let cs = arg_chunks(index, frags);
    if frags.len() == 0 {
        assert(e.pending[j].args + joined(frags) =~= e.pending[j].args);
    } else {
        let prefix = frags.drop_last();
        assert(cs.drop_last() =~= arg_chunks(index, prefix));
        lemma_fragments_accumulate(e, index, prefix);
        let v = run_chunks(e, arg_chunks(index, prefix))->Ok_0;
        let w = v.on_chunk(cs.last())->Ok_0;
        lemma_pending_pos_congruent(v.pending, w.pending, index);
        assert(e.pending[j].args + joined(prefix) + frags.last() =~= e.pending[j].args + joined(
            frags,
        ));
    }
}

/// Splitting one call's argument text differently changes nothing: two
/// partitions of the same text leave the same calls and, once the round
/// ends, the same history.
pub proof fn lemma_partition_independent(
    e: EngineView,
    index: u32,
    p: Seq<Seq<char>>,
    q: Seq<Seq<char>>,
)
    requires
        pending_pos(e.pending, index) >= 0,
        joined(p) == joined(q),
    ensures
        run_chunks(e, arg_chunks(index, p)) matches Ok(a) && run_chunks(e, arg_chunks(index, q))
            matches Ok(b) && a.pending == b.pending && a.finish_round().history
            == b.finish_round().history,
{
    lemma_fragments_accumulate(e, index, p);
    lemma_fragments_accumulate(e, index, q);
    let a = run_chunks(e, arg_chunks(index, p))->Ok_0;
    let b = run_chunks(e, arg_chunks(index, q))->Ok_0;
    assert(a.pending =~= b.pending);
    assert(EngineView::invocations(a.pending) =~= EngineView::invocations(b.pending));
}

/// Deltas never touch the history: after any deltas that the round
/// accepted, the history is the one the round started with, and aborting the
/// round there (a stream error, or a delta that aborts the turn) leaves the
/// engine idle with that same history and nothing outstanding.
pub proof fn lemma_deltas_keep_history(e: EngineView, cs: Seq<ChunkView>)
    ensures
        run_chunks(e, cs) is Ok ==> {
            let v = run_chunks(e, cs)->Ok_0;
            &&& v.history == e.history
            &&& v.abort().history == e.history
            &&& v.abort().state == TurnState::Idle
            &&& v.abort().in_flight.len() == 0
            &&& v.abort().pending.len() == 0
        },
    decreases cs.len(),
{
    if cs.len() > 0 {
        lemma_deltas_keep_history(e, cs.drop_last());
    }
}

/// A turn whose round fails commits only the user's message: after a
/// non-blank submission and any deltas, an abort leaves the history as it
/// was before the submission plus that message.
pub proof fn lemma_failed_turn_keeps_only_user_message(
    e: EngineView,
    text: Seq<char>,
    cs: Seq<ChunkView>,
)
    requires
        !is_blank(text),
    ensures
        run_chunks(e.submit(text), cs) is Ok ==> run_chunks(e.submit(text), cs)->Ok_0.abort().history
            == e.history.push(HistoryEntry::User(text)),
{
    lemma_deltas_keep_history(e.submit(text), cs);
}

/// The argument texts that the deltas carry for stream position `index`, in
/// the order received.
pub open spec fn texts_at(cs: Seq<ChunkView>, index: u32) -> Seq<Seq<char>>
    decreases cs.len(),
{
    if cs.len() == 0 {
        Seq::empty()
    } else {
        let t = texts_at(cs.drop_last(), index);
        match cs.last() {
            ChunkView::Args { index: i, text } => if i == index {
                t.push(text)
            } else {
                t
            },
            _ => t,
        }
    }
}

/// No two pending calls share a stream position.
pub open spec fn distinct_positions(ps: Seq<PendingView>) -> bool {
    forall|j: int, k: int|
        0 <= j < ps.len() && 0 <= k < ps.len() && j != k ==> #[trigger] ps[j].index
            != #[trigger] ps[k].index
}

/// Every delta is argument text for a call that is open.
pub open spec fn args_for_open_calls(cs: Seq<ChunkView>, ps: Seq<PendingView>) -> bool {
    forall|k: int|
        0 <= k < cs.len() ==> (#[trigger] cs[k]) is Args && pending_pos(ps, cs[k]->Args_index) >= 0
}

/// Interleaved argument fragments of several open calls stay apart: each
/// call's arguments grow by exactly the fragments at its own position,
/// joined in the order received, and nothing else changes.
pub proof fn lemma_fragments_routed(e: EngineView, cs: Seq<ChunkView>)
    requires
        distinct_positions(e.pending),
        args_for_open_calls(cs, e.pending),
    ensures
        run_chunks(e, cs) matches Ok(v) && v.history == e.history && v.text == e.text
            && v.pending.len() == e.pending.len() && forall|k: int|
            0 <= k < e.pending.len() ==> #[trigger] v.pending[k] == (PendingView {
                args: e.pending[k].args + joined(texts_at(cs, e.pending[k].index)),
                ..e.pending[k]
            }),
    decreases cs.len(),
{
    if cs.len() == 0 {
        assert forall|k: int| 0 <= k < e.pending.len() implies #[trigger] e.pending[k] == (PendingView {
            args: e.pending[k].args + joined(texts_at(cs, e.pending[k].index)),
            ..e.pending[k]
        }) by {
            assert(e.pending[k].args + Seq::<char>::empty() =~= e.pending[k].args);
        }
    } else {
        let prev = cs.drop_last();
        assert forall|k: int| 0 <= k < prev.len() implies (#[trigger] prev[k]) is Args
            && pending_pos(e.pending, prev[k]->Args_index) >= 0 by {
            assert(prev[k] == cs[k]);
        }
        lemma_fragments_routed(e, prev);
        let v1 = run_chunks(e, prev)->Ok_0;
        let c = cs.last();
        assert(c == cs[cs.len() - 1]);
        let i = c->Args_index;
        lemma_pending_pos_congruent(v1.pending, e.pending, i);
        let j = pending_pos(e.pending, i);
        assert(0 <= j < e.pending.len() && e.pending[j].index == i);
        let v = v1.on_chunk(c)->Ok_0;
        assert forall|k: int| 0 <= k < e.pending.len() implies #[trigger] v.pending[k] == (PendingView {
            args: e.pending[k].args + joined(texts_at(cs, e.pending[k].index)),
            ..e.pending[k]
        }) by {
            assert(v1.pending[k] == (PendingView {
                args: e.pending[k].args + joined(texts_at(prev, e.pending[k].index)),
                ..e.pending[k]
            }));
            if k == j {
                let a = e.pending[k].args;
                let p = joined(texts_at(prev, i));
                assert(texts_at(cs, i) == texts_at(prev, i).push(c->Args_text));
                assert(texts_at(cs, i).drop_last() =~= texts_at(prev, i));
                assert((a + p) + c->Args_text =~= a + (p + c->Args_text));
            } else {
                assert(e.pending[k].index != i);
            }
        }
    }
}

/// What the engine is handed from outside, one at a time.
pub enum EngineInput {
    Submit(Seq<char>),
    Delta(ChunkView),
    StreamFailed,
    StreamEnded,
    ToolResult(Seq<char>, Result<Seq<char>, Seq<char>>),
}

/// The engine after one input; an input that its state does not take
/// changes nothing, and one that aborts the turn leaves it aborted.
pub open spec fn step(e: EngineView, input: EngineInput) -> EngineView {
    match input {
        EngineInput::Submit(t) => if e.state == TurnState::Idle {
            e.submit(t)
        } else {
            e
        },
        EngineInput::Delta(c) => if e.state == TurnState::Streaming {
            match e.on_chunk(c) {
                Ok(v) => v,
                Err(_) => e.abort(),
            }
        } else {
            e
        },
        EngineInput::StreamFailed => e.abort(),
        EngineInput::StreamEnded => if e.state == TurnState::Streaming {
            e.finish_round()
        } else {
            e
        },
        EngineInput::ToolResult(id, r) => if e.state == TurnState::AwaitingTools {
            match e.on_result(id, r) {
                Ok(v) => v,
                Err(_) => e.abort(),
            }
        } else {
            e
        },
    }
}

/// The engine after each of the inputs in order.
pub open spec fn run(e: EngineView, inputs: Seq<EngineInput>) -> EngineView
    decreases inputs.len(),
{
    if inputs.len() == 0 {
        e
    } else {
        step(run(e, inputs.drop_last()), inputs.last())
    }
}

/// Whether two engines agree on everything that decides the history, the
/// requests and the tool calls they hand out; what they have shown may
/// differ.
pub open spec fn same_conversation(a: EngineView, b: EngineView) -> bool {
    &&& same_round(a, b)
    &&& a.state == b.state
    &&& flight_ids(a.in_flight) == flight_ids(b.in_flight)
    &&& a.dispatched == b.dispatched
    &&& a.resolved == b.resolved
}

proof fn lemma_flight_pos_congruent(a: Seq<InFlightView>, b: Seq<InFlightView>, id: Seq<char>)
    requires
        flight_ids(a) == flight_ids(b),
    ensures
        flight_pos(a, id) == flight_pos(b, id),
{
    assert(a.len() == flight_ids(a).len());
    assert(b.len() == flight_ids(b).len());
    assert forall|k: int| 0 <= k < a.len() implies #[trigger] a[k].id == b[k].id by {
        assert(flight_ids(a)[k] == flight_ids(b)[k]);
    }
    if exists|j: int| 0 <= j < a.len() && a[j].id == id && forall|k: int|
        0 <= k < j ==> a[k].id != id {
        let j = choose|j: int| 0 <= j < a.len() && a[j].id == id && forall|k: int| 0 <= k < j ==> a[k].id != id;
        assert(0 <= j < b.len() && b[j].id == id && forall|k: int| 0 <= k < j ==> b[k].id != id) by {
            assert forall|k: int| 0 <= k < j implies b[k].id != id by {
                assert(a[k].id == b[k].id);
            }
        }
        let j2 = flight_pos(b, id);
        if j2 < j {
            assert(a[j2].id == b[j2].id);
        }
        if j < j2 {
            assert(b[j].id == id);
        }
    } else {
        assert(!exists|j: int| 0 <= j < b.len() && b[j].id == id && forall|k: int|
            0 <= k < j ==> b[k].id != id) by {
            if exists|j: int| 0 <= j < b.len() && b[j].id == id && forall|k: int|
                0 <= k < j ==> b[k].id != id {
                let j = choose|j: int| 0 <= j < b.len() && b[j].id == id && forall|k: int| 0 <= k < j ==> b[k].id != id;
                assert(a[j].id == b[j].id);
                assert forall|k: int| 0 <= k < j implies a[k].id != id by {
                    assert(a[k].id == b[k].id);
                }
            }
        }
    }
}

proof fn lemma_submit_congruent(a: EngineView, b: EngineView, t: Seq<char>)
    requires
        same_conversation(a, b),
    ensures
        same_conversation(step(a, EngineInput::Submit(t)), step(b, EngineInput::Submit(t))),
{
    if a.state == TurnState::Idle && !is_blank(t) {
        let sa = a.submit(t);
        let sb = b.submit(t);
        assert(sa.pending.len() == 0 && sb.pending.len() == 0);
        assert(same_calls(sa.pending, sb.pending));
        assert(same_conversation(sa, sb));
    }
}

proof fn lemma_abort_congruent(a: EngineView, b: EngineView)
    requires
        same_conversation(a, b),
    ensures
        same_conversation(a.abort(), b.abort()),
{
    assert(flight_ids(a.abort().in_flight) =~= flight_ids(b.abort().in_flight));
    assert(same_calls(a.abort().pending, b.abort().pending));
}

proof fn lemma_delta_congruent(a: EngineView, b: EngineView, c: ChunkView)
    requires
        same_conversation(a, b),
    ensures
        same_conversation(step(a, EngineInput::Delta(c)), step(b, EngineInput::Delta(c))),
{
    if a.state == TurnState::Streaming {
        let cs = seq![c];
        assert(cs.drop_last() =~= Seq::<ChunkView>::empty());
        assert(cs.last() == c);
        assert(run_chunks(a, cs.drop_last()) == Ok::<EngineView, ()>(a));
        assert(run_chunks(b, cs.drop_last()) == Ok::<EngineView, ()>(b));
        assert(run_chunks(a, cs) == a.on_chunk(c));
        assert(run_chunks(b, cs) == b.on_chunk(c));
        lemma_history_determined(a, b, cs);
        if a.on_chunk(c) is Ok {
            let va = a.on_chunk(c)->Ok_0;
            let vb = b.on_chunk(c)->Ok_0;
            assert(va.state == a.state && va.in_flight == a.in_flight && va.dispatched
                == a.dispatched && va.resolved == a.resolved);
            assert(vb.state == b.state && vb.in_flight == b.in_flight && vb.dispatched
                == b.dispatched && vb.resolved == b.resolved);
        } else {
            lemma_abort_congruent(a, b);
        }
    }
}

proof fn lemma_end_congruent(a: EngineView, b: EngineView)
    requires
        same_conversation(a, b),
    ensures
        same_conversation(step(a, EngineInput::StreamEnded), step(b, EngineInput::StreamEnded)),
{
    if a.state == TurnState::Streaming {
        let fa = a.finish_round();
        let fb = b.finish_round();
        assert(EngineView::invocations(a.pending) =~= EngineView::invocations(b.pending));
        assert(flight_ids(fa.in_flight) =~= flight_ids(fb.in_flight));
        assert(fa.dispatched =~= fb.dispatched);
        assert(same_calls(fa.pending, fb.pending));
    }
}

proof fn lemma_result_congruent(
    a: EngineView,
    b: EngineView,
    id: Seq<char>,
    r: Result<Seq<char>, Seq<char>>,
)
    requires
        same_conversation(a, b),
    ensures
        same_conversation(
            step(a, EngineInput::ToolResult(id, r)),
            step(b, EngineInput::ToolResult(id, r)),
        ),
{
    if a.state == TurnState::AwaitingTools {
        lemma_flight_pos_congruent(a.in_flight, b.in_flight, id);
        let j = flight_pos(a.in_flight, id);
        if j >= 0 {
            assert(a.in_flight.len() == flight_ids(a.in_flight).len());
            assert(b.in_flight.len() == flight_ids(b.in_flight).len());
            assert(flight_ids(a.in_flight.remove(j)) =~= flight_ids(a.in_flight).remove(j));
            assert(flight_ids(b.in_flight.remove(j)) =~= flight_ids(b.in_flight).remove(j));
            let va = a.on_result(id, r)->Ok_0;
            let vb = b.on_result(id, r)->Ok_0;
            if flight_ids(a.in_flight).remove(j).len() == 0 {
                assert(same_calls(va.pending, vb.pending));
            }
        } else {
            lemma_abort_congruent(a, b);
        }
    }
}

proof fn lemma_step_congruent(a: EngineView, b: EngineView, input: EngineInput)
    requires
        same_conversation(a, b),
    ensures
        same_conversation(step(a, input), step(b, input)),
{
    match input {
        EngineInput::Submit(t) => lemma_submit_congruent(a, b, t),
        EngineInput::Delta(c) => lemma_delta_congruent(a, b, c),
        EngineInput::StreamFailed => lemma_abort_congruent(a, b),
        EngineInput::StreamEnded => lemma_end_congruent(a, b),
        EngineInput::ToolResult(id, r) => lemma_result_congruent(a, b, id, r),
    }
}

/// Determinism over whole conversations: two engines that agree on the
/// history and the state of the turn, handed the same inputs (messages,
/// deltas, stream ends and failures, tool results), agree after every input.
/// So each run asks for its requests over the same history, hands out the
/// same tool calls in the same order, and ends with the same history,
/// whatever either had shown.
pub proof fn lemma_run_deterministic(a: EngineView, b: EngineView, inputs: Seq<EngineInput>)
    requires
        same_conversation(a, b),
    ensures
        same_conversation(run(a, inputs), run(b, inputs)),
        run(a, inputs).history == run(b, inputs).history,
        EngineView::invocations(run(a, inputs).pending) == EngineView::invocations(
            run(b, inputs).pending,
        ),
    decreases inputs.len(),
{
    if inputs.len() > 0 {
        lemma_run_deterministic(a, b, inputs.drop_last());
        lemma_step_congruent(run(a, inputs.drop_last()), run(b, inputs.drop_last()), inputs.last());
    }
    assert(EngineView::invocations(run(a, inputs).pending) =~= EngineView::invocations(
        run(b, inputs).pending,
    ));
}

} // verus!
