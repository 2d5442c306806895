use vstd::prelude::*;
use vstd::string::*;

use crate::ui_state::{empty_ui, spec_apply, ChatUIModification, ChatUIState, ChatUIStateView, ModView, UiError};

verus! {

/// The state reached by applying `ms` in order to `s`, or `None` where one of
/// them does not fit.
pub open spec fn apply_all(s: ChatUIStateView, ms: Seq<ModView>) -> Option<ChatUIStateView>
    decreases ms.len(),
{
    if ms.len() == 0 {
        Some(s)
    } else {
        match apply_all(s, ms.drop_last()) {
            Some(t) => spec_apply(t, ms.last()),
            None => None,
        }
    }
}

/// A text event with `more` added at the end of its text.
pub open spec fn with_more_text(m: ModView, more: Seq<char>) -> ModView {
    match m {
        ModView::AddSystemMessage { text } => ModView::AddSystemMessage { text: text + more },
        ModView::AppendSystemMessage { index, text } => ModView::AppendSystemMessage {
            index,
            text: text + more,
        },
        _ => m,
    }
}

/// Queues `m` behind `queued`. `open_text` names the message that the last
/// queued event writes text to, if it is a text event; `slot` is the index
/// that a message added by `m` gets. An append to that same message joins
/// the last queued event; every other event is queued as it is.
pub open spec fn merge_spec(queued: Seq<ModView>, open_text: Option<usize>, slot: usize, m: ModView) -> (
    Seq<ModView>,
    Option<usize>,
) {
    match m {
        ModView::AppendSystemMessage { index, text } => {
            if open_text == Some(index) && queued.len() > 0 {
                (queued.drop_last().push(with_more_text(queued.last(), text)), open_text)
            } else {
                (queued.push(m), Some(index))
            }
        },
        ModView::AddSystemMessage { .. } => (queued.push(m), Some(slot)),
        _ => (queued.push(m), None),
    }
}

pub struct BatcherView {
    /// The state after every event received so far.
    pub ui: ChatUIStateView,
    /// The state after every event handed out so far.
    pub base: ChatUIStateView,
    pub deferred: Seq<ModView>,
    pub open_text: Option<usize>,
    pub last_sent: Option<u64>,
    pub interval: u64,
}

impl BatcherView {
    pub open spec fn wf(self) -> bool {
        &&& apply_all(self.base, self.deferred) == Some(self.ui)
        &&& match self.open_text {
            Some(i) => {
                &&& self.deferred.len() > 0
                &&& (self.deferred.last() is AddSystemMessage ==> i + 1
                    == self.ui.messages.len())
                &&& (self.deferred.last() is AddSystemMessage || self.deferred.last()
                    == ModView::AppendSystemMessage {
                    index: i,
                    text: self.deferred.last()->AppendSystemMessage_text,
                })
            },
            None => true,
        }
    }

    /// The batcher after receiving `m`, or `None` where `m` does not fit.
    pub open spec fn step(self, m: ModView) -> Option<BatcherView> {
        match spec_apply(self.ui, m) {
            Some(u) => {
                let merged = merge_spec(
                    self.deferred,
                    self.open_text,
                    self.ui.messages.len() as usize,
                    m,
                );
                Some(BatcherView { ui: u, deferred: merged.0, open_text: merged.1, ..self })
            },
            None => None,
        }
    }

    /// The batcher after receiving each of `ms` in order.
    pub open spec fn step_all(self, ms: Seq<ModView>) -> Option<BatcherView>
        decreases ms.len(),
    {
        if ms.len() == 0 {
            Some(self)
        } else {
            match self.step_all(ms.drop_last()) {
                Some(b) => b.step(ms.last()),
                None => None,
            }
        }
    }

    /// Whether queued events may be handed out at time `now`.
    pub open spec fn due(self, now: u64) -> bool {
        &&& self.deferred.len() > 0
        &&& match self.last_sent {
            None => true,
            Some(t) => now as int >= t as int + self.interval as int,
        }
    }
}

/// The texts joined in order.
pub open spec fn joined(texts: Seq<Seq<char>>) -> Seq<char>
    decreases texts.len(),
{
    if texts.len() == 0 {
        Seq::empty()
    } else {
        joined(texts.drop_last()) + texts.last()
    }
}

/// One append event to message `index` for each of `texts`.
pub open spec fn appends_to(index: usize, texts: Seq<Seq<char>>) -> Seq<ModView> {
    texts.map_values(|t: Seq<char>| ModView::AppendSystemMessage { index, text: t })
}

/// Consecutive appends to one message, received with no batch handed out
/// between them, after whatever was queued (nothing, or an event that does
/// not write text to that message), add exactly one queued event: an append
/// to that message carrying the texts joined in order. What was queued
/// before stays as it was.
pub proof fn lemma_appends_coalesce(b: BatcherView, index: usize, texts: Seq<Seq<char>>)
    requires
        b.wf(),
        b.open_text != Some(index),
        texts.len() > 0,
        index < b.ui.messages.len(),
        b.ui.messages[index as int] is System,
    ensures
        b.step_all(appends_to(index, texts)) matches Some(b2) && b2.deferred == b.deferred.push(
            ModView::AppendSystemMessage { index, text: joined(texts) },
        ) && b2.open_text == Some(index) && b2.ui.messages.len() == b.ui.messages.len()
            && b2.ui.messages[index as int] is System,
    decreases texts.len(),
{
    let ms = appends_to(index, texts);
    let prefix = texts.drop_last();
    assert(ms.drop_last() =~= appends_to(index, prefix));
    if texts.len() == 1 {
        assert(prefix =~= Seq::<Seq<char>>::empty());
        assert(joined(texts) =~= texts[0]);
        let b2 = b.step(ms.last())->Some_0;
        assert(b2.deferred =~= b.deferred.push(
            ModView::AppendSystemMessage { index, text: joined(texts) },
        ));
    } else {
        lemma_appends_coalesce(b, index, prefix);
        let b1 = b.step_all(appends_to(index, prefix))->Some_0;
        let b2 = b1.step(ms.last())->Some_0;
        assert(b1.deferred.drop_last() =~= b.deferred);
        assert(b2.deferred =~= b.deferred.push(
            ModView::AppendSystemMessage { index, text: joined(texts) },
        ));
    }
}

/// Collects presentation events and hands them out in batches, at most once
/// per interval, joining consecutive text appends to one message.
pub struct UIBatcher {
    ui_state: ChatUIState,
    deferred: Vec<ChatUIModification>,
    open_text: Option<usize>,
    last_sent: Option<u64>,
    interval: u64,
    base: Ghost<ChatUIStateView>,
}

impl View for UIBatcher {
    type V = BatcherView;

    closed spec fn view(&self) -> BatcherView {
        BatcherView {
            ui: self.ui_state@,
            base: self.base@,
            deferred: self.deferred@.map_values(|m: ChatUIModification| m@),
            open_text: self.open_text,
            last_sent: self.last_sent,
            interval: self.interval,
        }
    }
}

/// Applying one more event continues from where the others left off.
pub proof fn lemma_apply_all_push(s: ChatUIStateView, ms: Seq<ModView>, m: ModView)
    ensures
        apply_all(s, ms.push(m)) == match apply_all(s, ms) {
            Some(t) => spec_apply(t, m),
            None => None,
        },
{
    assert(ms.push(m).drop_last() =~= ms);
}

impl UIBatcher {
    /// A batcher that hands out at most once per `interval` time units,
    /// starting from an empty presentation state.
    pub fn new(interval: u64) -> (r: Self)
        ensures
            r@.wf(),
            r@.ui == empty_ui(),
            r@.base == r@.ui,
            r@.deferred.len() == 0,
            r@.open_text is None,
            r@.last_sent is None,
            r@.interval == interval,
    {
        let ui_state = ChatUIState::new();
        let ghost base = ui_state@;
        let r = UIBatcher {
            ui_state,
            deferred: Vec::new(),
            open_text: None,
            last_sent: None,
            interval,
            base: Ghost(base),
        };
        assert(r@.deferred =~= Seq::<ModView>::empty());
        r
    }

    /// The state after every event received so far.
    pub fn ui_state(&self) -> (r: &ChatUIState)
        ensures
            r@ == self@.ui,
    {
        &self.ui_state
    }

    fn merge_modifications(&mut self, slot: usize, modification: ChatUIModification)
        requires
            old(self)@.open_text matches Some(i) ==> old(self)@.deferred.len() > 0 && (
            old(self)@.deferred.last() is AddSystemMessage || old(self)@.deferred.last()
                is AppendSystemMessage),
        ensures
            (final(self)@.deferred, final(self)@.open_text) == merge_spec(
                old(self)@.deferred,
                old(self)@.open_text,
                slot,
                modification@,
            ),
            final(self).ui_state == old(self).ui_state,
            final(self).base == old(self).base,
            final(self).last_sent == old(self).last_sent,
            final(self).interval == old(self).interval,
    {
        let ghost d0 = self@.deferred;
        let ghost m = modification@;
        match modification {
            ChatUIModification::AppendSystemMessage { index, text } => {
                let joins = match self.open_text {
                    Some(i) => i == index,
                    None => false,
                };
                if joins {
                    let last = self.deferred.pop();
                    let joined = match last {
                        Some(ChatUIModification::AddSystemMessage { text: t0 }) => {
                            let mut t = t0;
                            t.append(text.as_str());
                            ChatUIModification::AddSystemMessage { text: t }
                        },
                        Some(ChatUIModification::AppendSystemMessage { index: i0, text: t0 }) => {
                            let mut t = t0;
                            t.append(text.as_str());
                            ChatUIModification::AppendSystemMessage { index: i0, text: t }
                        },
                        Some(other) => other,
                        None => ChatUIModification::AppendSystemMessage { index, text },
                    };
                    self.deferred.push(joined);
                    assert(self@.deferred =~= d0.drop_last().push(with_more_text(d0.last(), m->AppendSystemMessage_text)));
                } else {
                    self.deferred.push(ChatUIModification::AppendSystemMessage { index, text });
                    self.open_text = Some(index);
                    assert(self@.deferred =~= d0.push(m));
                }
            },
            ChatUIModification::AddSystemMessage { text } => {
                self.deferred.push(ChatUIModification::AddSystemMessage { text });
                self.open_text = Some(slot);
                assert(self@.deferred =~= d0.push(m));
            },
            other => {
                self.deferred.push(other);
                self.open_text = None;
                assert(self@.deferred =~= d0.push(m));
            },
        }
    }

    /// Receives one event: checks it against the state seen so far, then
    /// queues it, joining it to the last queued event where both append text
    /// to the same message.
    pub fn apply(&mut self, modification: ChatUIModification) -> (r: Result<(), UiError>)
        requires
            old(self)@.wf(),
        ensures
            final(self)@.wf(),
            match old(self)@.step(modification@) {
                Some(b) => r is Ok && final(self)@ == b,
                None => r is Err && final(self)@ == old(self)@,
            },
    {
        let slot = self.ui_state.next_message_index();
        let copy = modification.duplicate();
        let ghost b0 = self@;
        let ghost m = modification@;
        match self.ui_state.apply(copy) {
            Err(e) => {
                return Err(e);
            },
            Ok(()) => {},
        }
        self.merge_modifications(slot, modification);
        proof {
            let b1 = self@;
            let d0 = b0.deferred;
            lemma_apply_all_push(b0.base, d0, m);
            if b1.deferred != d0.push(m) {
                // the append joined the last queued text event
                let i = b0.open_text->Some_0;
                let prefix = d0.drop_last();
                assert(d0 =~= prefix.push(d0.last()));
                lemma_apply_all_push(b0.base, prefix, d0.last());
                lemma_apply_all_push(b0.base, prefix, with_more_text(d0.last(), m->AppendSystemMessage_text));
                let t = apply_all(b0.base, prefix)->Some_0;
                if d0.last() is AddSystemMessage {
                    assert(t.messages.push(crate::ui_state::MessageView::System(d0.last()->AddSystemMessage_text)) == b0.ui.messages);
                    assert(b1.ui.messages =~= spec_apply(t, with_more_text(d0.last(), m->AppendSystemMessage_text))->Some_0.messages);
                } else {
                    let a = t.messages[i as int]->System_0;
                    let t0 = d0.last()->AppendSystemMessage_text;
                    let u = m->AppendSystemMessage_text;
                    assert((a + t0) + u =~= a + (t0 + u));
                    assert(b1.ui.messages =~= spec_apply(t, with_more_text(d0.last(), m->AppendSystemMessage_text))->Some_0.messages);
                }
                assert(b1.ui == spec_apply(t, with_more_text(d0.last(), m->AppendSystemMessage_text))->Some_0);
            }
        }
        Ok(())
    }

    /// Whether queued events may be handed out at time `now`.
    pub fn flush_due(&self, now: u64) -> (r: bool)
        ensures
            r == self@.due(now),
    {
        if self.deferred.len() == 0 {
            return false;
        }
        match self.last_sent {
            None => true,
            Some(t) => now >= t && now - t >= self.interval,
        }
    }

    fn drain(&mut self) -> (r: Vec<ChatUIModification>)
        requires
            old(self)@.wf(),
        ensures
            r@.map_values(|m: ChatUIModification| m@) == old(self)@.deferred,
            final(self)@ == (BatcherView {
                base: old(self)@.ui,
                deferred: Seq::empty(),
                open_text: None,
                ..old(self)@
            }),
            final(self)@.wf(),
    {
        let mut r = Vec::new();
        core::mem::swap(&mut r, &mut self.deferred);
        self.open_text = None;
        self.base = Ghost(self.ui_state@);
        assert(self@.deferred =~= Seq::<ModView>::empty());
        r
    }

    /// Hands out every queued event where the interval since the last batch
    /// has passed, and nothing otherwise. Applied in order to the state the
    /// receiver had, the events give the state seen here.
    pub fn take_due(&mut self, now: u64) -> (r: Vec<ChatUIModification>)
        requires
            old(self)@.wf(),
        ensures
            final(self)@.wf(),
            old(self)@.due(now) ==> {
                &&& r@.map_values(|m: ChatUIModification| m@) == old(self)@.deferred
                &&& apply_all(old(self)@.base, r@.map_values(|m: ChatUIModification| m@))
                    == Some(old(self)@.ui)
                &&& final(self)@ == (BatcherView {
                    base: old(self)@.ui,
                    deferred: Seq::empty(),
                    open_text: None,
                    last_sent: Some(now),
                    ..old(self)@
                })
            },
            !old(self)@.due(now) ==> r@.len() == 0 && final(self)@ == old(self)@,
    {
        if !self.flush_due(now) {
            return Vec::new();
        }
        let r = self.drain();
        self.last_sent = Some(now);
        r
    }

    /// Hands out every queued event at once, as on shutdown.
    pub fn finish(&mut self) -> (r: Vec<ChatUIModification>)
        requires
            old(self)@.wf(),
        ensures
            final(self)@.wf(),
            r@.map_values(|m: ChatUIModification| m@) == old(self)@.deferred,
            apply_all(old(self)@.base, r@.map_values(|m: ChatUIModification| m@)) == Some(
                old(self)@.ui,
            ),
            final(self)@.deferred.len() == 0,
            final(self)@.ui == old(self)@.ui,
    {
        self.drain()
    }

    /// When the queued events may next be handed out: `None` with nothing
    /// queued.
    pub fn next_flush_at(&self) -> (r: Option<u64>)
        ensures
            self@.deferred.len() == 0 ==> r is None,
            self@.deferred.len() > 0 ==> r == Some(
                match self@.last_sent {
                    None => 0u64,
                    Some(t) => if t as int + self@.interval as int > u64::MAX {
                        u64::MAX
                    } else {
                        (t + self@.interval) as u64
                    },
                },
            ),
    {
        if self.deferred.len() == 0 {
            return None;
        }
        match self.last_sent {
            None => Some(0),
            Some(t) => Some(t.saturating_add(self.interval)),
        }
    }
}

} // verus!
