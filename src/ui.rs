use vstd::prelude::*;

use crate::ui_state::{spec_apply, ChatUIModification, ChatUIState, ChatUIStateView, UiError};

verus! {

/// Relies on `String::push`: the character is appended.
#[verifier::external_body]
fn push_char(s: &mut String, c: char)
    ensures
        final(s)@ == old(s)@.push(c),
{
    s.push(c)
}

pub struct UIStateView {
    pub chat: ChatUIStateView,
    pub scroll_offset: usize,
    pub input: Seq<char>,
    pub cursor: usize,
    pub waiting_for_ctrl_c: bool,
}

/// The terminal's state: the chat, how far it is scrolled, and the
/// single-line input with its cursor (a character position).
#[derive(Debug)]
pub struct UIState {
    chat: ChatUIState,
    scroll_offset: usize,
    input: Vec<char>,
    cursor: usize,
    waiting_for_ctrl_c: bool,
}

impl View for UIState {
    type V = UIStateView;

    closed spec fn view(&self) -> UIStateView {
        UIStateView {
            chat: self.chat@,
            scroll_offset: self.scroll_offset,
            input: self.input@,
            cursor: self.cursor,
            waiting_for_ctrl_c: self.waiting_for_ctrl_c,
        }
    }
}

impl UIStateView {
    pub open spec fn wf(self) -> bool {
        self.cursor <= self.input.len()
    }
}

/// How far down a view of `visible` lines over `total` lines can go.
pub open spec fn max_offset(total: usize, visible: usize) -> usize {
    if total > visible {
        (total - visible) as usize
    } else {
        0
    }
}

impl UIState {
    pub fn new() -> (r: Self)
        ensures
            r@.wf(),
            r@.chat.messages.len() == 0,
            r@.scroll_offset == 0,
            r@.input.len() == 0,
            r@.cursor == 0,
            !r@.waiting_for_ctrl_c,
    {
        let r = UIState {
            chat: ChatUIState::new(),
            scroll_offset: 0,
            input: Vec::new(),
            cursor: 0,
            waiting_for_ctrl_c: false,
        };
        r
    }

    pub fn chat(&self) -> (r: &ChatUIState)
        ensures
            r@ == self@.chat,
    {
        &self.chat
    }

    pub fn scroll_offset(&self) -> (r: usize)
        ensures
            r == self@.scroll_offset,
    {
        self.scroll_offset
    }

    pub fn cursor_position(&self) -> (r: usize)
        ensures
            r == self@.cursor,
    {
        self.cursor
    }

    pub fn waiting_for_ctrl_c(&self) -> (r: bool)
        ensures
            r == self@.waiting_for_ctrl_c,
    {
        self.waiting_for_ctrl_c
    }

    pub fn set_waiting_for_ctrl_c(&mut self, waiting: bool)
        ensures
            final(self)@ == (UIStateView { waiting_for_ctrl_c: waiting, ..old(self)@ }),
    {
        self.waiting_for_ctrl_c = waiting;
    }

    /// The text typed so far.
    pub fn input_text(&self) -> (r: String)
        ensures
            r@ == self@.input,
    {
        let mut s = String::new();
        let mut i: usize = 0;
        while i < self.input.len()
            invariant
                i <= self.input@.len(),
                s@ == self.input@.take(i as int),
            decreases self.input@.len() - i,
        {
            push_char(&mut s, self.input[i]);
            assert(self.input@.take(i + 1) =~= self.input@.take(i as int).push(self.input@[i as int]));
            i = i + 1;
        }
        assert(self.input@.take(i as int) =~= self.input@);
        s
    }

    /// Applies a change to the chat shown.
    pub fn apply(&mut self, modification: ChatUIModification) -> (r: Result<(), UiError>)
        ensures
            match spec_apply(old(self)@.chat, modification@) {
                Some(c) => r is Ok && final(self)@ == (UIStateView { chat: c, ..old(self)@ }),
                None => r is Err && final(self)@ == old(self)@,
            },
    {
        self.chat.apply(modification)
    }

    pub fn scroll_up(&mut self)
        ensures
            final(self)@ == (UIStateView {
                scroll_offset: if old(self)@.scroll_offset > 0 {
                    (old(self)@.scroll_offset - 1) as usize
                } else {
                    0
                },
                ..old(self)@
            }),
    {
        if self.scroll_offset > 0 {
            self.scroll_offset -= 1;
        }
    }

    pub fn scroll_down(&mut self, total_lines: usize, visible_height: usize)
        ensures
            final(self)@ == (UIStateView {
                scroll_offset: if old(self)@.scroll_offset < max_offset(total_lines, visible_height) {
                    (old(self)@.scroll_offset + 1) as usize
                } else {
                    old(self)@.scroll_offset
                },
                ..old(self)@
            }),
    {
        if total_lines > visible_height && self.scroll_offset < total_lines - visible_height {
            self.scroll_offset += 1;
        }
    }

    pub fn scroll_to_bottom(&mut self, total_lines: usize, visible_height: usize)
        ensures
            final(self)@ == (UIStateView {
                scroll_offset: max_offset(total_lines, visible_height),
                ..old(self)@
            }),
    {
        if total_lines > visible_height {
            self.scroll_offset = total_lines - visible_height;
        } else {
            self.scroll_offset = 0;
        }
    }

    /// Types a character at the cursor; a newline is refused, the input
    /// being one line.
    pub fn insert_char(&mut self, ch: char)
        requires
            old(self)@.wf(),
        ensures
            final(self)@.wf(),
            ch == '\n' ==> final(self)@ == old(self)@,
            ch != '\n' ==> final(self)@ == (UIStateView {
                input: old(self)@.input.insert(old(self)@.cursor as int, ch),
                cursor: (old(self)@.cursor + 1) as usize,
                ..old(self)@
            }),
    {
        if ch != '\n' {
            self.input.insert(self.cursor, ch);
            let len = self.input.len();
            assert(self.cursor < len);
            self.cursor += 1;
        }
    }

    pub fn delete_char_backward(&mut self)
        requires
            old(self)@.wf(),
        ensures
            final(self)@.wf(),
            old(self)@.cursor == 0 ==> final(self)@ == old(self)@,
            old(self)@.cursor > 0 ==> final(self)@ == (UIStateView {
                input: old(self)@.input.remove(old(self)@.cursor - 1),
                cursor: (old(self)@.cursor - 1) as usize,
                ..old(self)@
            }),
    {
        if self.cursor > 0 {
            self.cursor -= 1;
            self.input.remove(self.cursor);
        }
    }

    pub fn delete_char_forward(&mut self)
        requires
            old(self)@.wf(),
        ensures
            final(self)@.wf(),
            old(self)@.cursor == old(self)@.input.len() ==> final(self)@ == old(self)@,
            old(self)@.cursor < old(self)@.input.len() ==> final(self)@ == (UIStateView {
                input: old(self)@.input.remove(old(self)@.cursor as int),
                ..old(self)@
            }),
    {
        if self.cursor < self.input.len() {
            self.input.remove(self.cursor);
        }
    }

    pub fn move_cursor_left(&mut self)
        requires
            old(self)@.wf(),
        ensures
            final(self)@.wf(),
            final(self)@ == (UIStateView {
                cursor: if old(self)@.cursor > 0 {
                    (old(self)@.cursor - 1) as usize
                } else {
                    0
                },
                ..old(self)@
            }),
    {
        if self.cursor > 0 {
            self.cursor -= 1;
        }
    }

    pub fn move_cursor_right(&mut self)
        requires
            old(self)@.wf(),
        ensures
            final(self)@.wf(),
            final(self)@ == (UIStateView {
                cursor: if old(self)@.cursor < old(self)@.input.len() {
                    (old(self)@.cursor + 1) as usize
                } else {
                    old(self)@.cursor
                },
                ..old(self)@
            }),
    {
        if self.cursor < self.input.len() {
            self.cursor += 1;
        }
    }

    pub fn move_cursor_to_start(&mut self)
        requires
            old(self)@.wf(),
        ensures
            final(self)@.wf(),
            final(self)@ == (UIStateView { cursor: 0, ..old(self)@ }),
    {
        self.cursor = 0;
    }

    pub fn move_cursor_to_end(&mut self)
        requires
            old(self)@.wf(),
        ensures
            final(self)@.wf(),
            final(self)@ == (UIStateView { cursor: old(self)@.input.len() as usize, ..old(self)@ }),
    {
        self.cursor = self.input.len();
    }

    pub fn clear_input(&mut self)
        ensures
            final(self)@.wf(),
            final(self)@ == (UIStateView { input: Seq::empty(), cursor: 0, ..old(self)@ }),
    {
        self.input.clear();
        self.cursor = 0;
        assert(self@.input =~= Seq::<char>::empty());
    }

    /// Hands out the typed text and empties the input.
    pub fn submit_input(&mut self) -> (r: String)
        ensures
            r@ == old(self)@.input,
            final(self)@.wf(),
            final(self)@ == (UIStateView { input: Seq::empty(), cursor: 0, ..old(self)@ }),
    {
        let message = self.input_text();
        self.clear_input();
        message
    }

    /// Lines left for the chat in a terminal of `terminal_height` rows: the
    /// input takes three and the chat's border two.
    pub fn calculate_visible_height(&self, terminal_height: u16) -> (r: u16)
        ensures
            r as int == if terminal_height >= 5 {
                terminal_height - 5
            } else {
                0
            },
    {
        terminal_height.saturating_sub(3).saturating_sub(2)
    }
}

} // verus!
