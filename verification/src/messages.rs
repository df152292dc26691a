//! The state of the messages window: a bounded history of bus messages and
//! a scroll position, changed only by the pure transition function
//! (state, intent) -> (state, events).
use vstd::prelude::*;
use crate::bus::{BusMessage, BusMessageView};

verus! {

/// The messages shown, newest last, and the scroll position.
pub struct MessagesState {
    pub messages: Vec<BusMessage>,
    pub scroll_offset: usize,
    pub max_messages: usize,
}

pub struct MessagesStateView {
    pub messages: Seq<BusMessageView>,
    pub scroll_offset: usize,
    pub max_messages: usize,
}

pub open spec fn view_messages(m: Seq<BusMessage>) -> Seq<BusMessageView> {
    m.map_values(|b: BusMessage| b@)
}

impl View for MessagesState {
    type V = MessagesStateView;

    open spec fn view(&self) -> MessagesStateView {
        MessagesStateView {
            messages: view_messages(self.messages@),
            scroll_offset: self.scroll_offset,
            max_messages: self.max_messages,
        }
    }
}

fn copy_messages(m: &Vec<BusMessage>) -> (r: Vec<BusMessage>)
    ensures
        view_messages(r@) == view_messages(m@),
{
    let mut r: Vec<BusMessage> = Vec::new();
    let mut i: usize = 0;
    while i < m.len()
        invariant
            i <= m.len(),
            view_messages(r@) == view_messages(m@).take(i as int),
        decreases m.len() - i,
    {
        let c = m[i].clone();
        let ghost before = r@;
        r.push(c);
        assert(view_messages(r@) =~= view_messages(before).push(c@));
        i = i + 1;
        assert(view_messages(r@) =~= view_messages(m@).take(i as int));
    }
    assert(view_messages(m@).take(i as int) =~= view_messages(m@));
    r
}

impl Clone for MessagesState {
    fn clone(&self) -> (r: Self)
        ensures
            r@ == self@,
    {
        MessagesState {
            messages: copy_messages(&self.messages),
            scroll_offset: self.scroll_offset,
            max_messages: self.max_messages,
        }
    }
}

impl Default for MessagesState {
    /// No message, at the top, keeping up to 100 messages.
    fn default() -> (r: Self)
        ensures
            r@ == (MessagesStateView { messages: Seq::empty(), scroll_offset: 0, max_messages: 100 }),
    {
        let r = MessagesState { messages: Vec::new(), scroll_offset: 0, max_messages: 100 };
        assert(view_messages(r.messages@) =~= Seq::<BusMessageView>::empty());
        r
    }
}

/// What the user wants to do.
pub enum MessagesIntent {
    ScrollUp,
    ScrollDown,
    ScrollToBottom,
    AddMessage(BusMessage),
    SetVisibleLines(usize),
}

/// What happened.
pub enum MessagesEvent {
    StateChanged(MessagesState),
    MessageAdded { message: BusMessage, total: usize },
    Scrolled { offset: usize },
}

pub enum MessagesEventView {
    StateChanged(MessagesStateView),
    MessageAdded { message: BusMessageView, total: usize },
    Scrolled { offset: usize },
}

impl View for MessagesEvent {
    type V = MessagesEventView;

    open spec fn view(&self) -> MessagesEventView {
        match self {
            MessagesEvent::StateChanged(s) => MessagesEventView::StateChanged(s@),
            MessagesEvent::MessageAdded { message, total } => MessagesEventView::MessageAdded {
                message: message@,
                total: *total,
            },
            MessagesEvent::Scrolled { offset } => MessagesEventView::Scrolled { offset: *offset },
        }
    }
}

pub enum MessagesIntentView {
    ScrollUp,
    ScrollDown,
    ScrollToBottom,
    AddMessage(BusMessageView),
    SetVisibleLines(usize),
}

impl View for MessagesIntent {
    type V = MessagesIntentView;

    open spec fn view(&self) -> MessagesIntentView {
        match self {
            MessagesIntent::ScrollUp => MessagesIntentView::ScrollUp,
            MessagesIntent::ScrollDown => MessagesIntentView::ScrollDown,
            MessagesIntent::ScrollToBottom => MessagesIntentView::ScrollToBottom,
            MessagesIntent::AddMessage(m) => MessagesIntentView::AddMessage(m@),
            MessagesIntent::SetVisibleLines(n) => MessagesIntentView::SetVisibleLines(*n),
        }
    }
}

pub open spec fn view_events(e: Seq<MessagesEvent>) -> Seq<MessagesEventView> {
    e.map_values(|x: MessagesEvent| x@)
}

/// The scroll event and the new state, for a state whose offset moved.
pub open spec fn scrolled(s: MessagesStateView) -> Seq<MessagesEventView> {
    seq![
        MessagesEventView::Scrolled { offset: s.scroll_offset },
        MessagesEventView::StateChanged(s),
    ]
}

/// The messages after one more arrives: the newest `max` kept, the oldest
/// dropped first.
pub open spec fn add_to(s: MessagesStateView, m: BusMessageView) -> MessagesStateView {
    let pushed = s.messages.push(m);
    if pushed.len() > s.max_messages {
        MessagesStateView {
            messages: pushed.drop_first(),
            scroll_offset: if s.scroll_offset > 0 {
                (s.scroll_offset - 1) as usize
            } else {
                0
            },
            max_messages: s.max_messages,
        }
    } else {
        MessagesStateView { messages: pushed, ..s }
    }
}

/// The transition function of the messages window.
pub open spec fn transition_spec(s: MessagesStateView, i: MessagesIntentView) -> (
    MessagesStateView,
    Seq<MessagesEventView>,
) {
    match i {
        MessagesIntentView::ScrollUp => if s.scroll_offset > 0 {
            let t = MessagesStateView { scroll_offset: (s.scroll_offset - 1) as usize, ..s };
            (t, scrolled(t))
        } else {
            (s, Seq::empty())
        },
        MessagesIntentView::ScrollDown => {
            let t = MessagesStateView { scroll_offset: (s.scroll_offset + 1) as usize, ..s };
            (t, scrolled(t))
        },
        MessagesIntentView::ScrollToBottom => {
            let t = MessagesStateView { scroll_offset: s.messages.len() as usize, ..s };
            (t, scrolled(t))
        },
        MessagesIntentView::AddMessage(m) => {
            let t = add_to(s, m);
            (
                t,
                seq![
                    MessagesEventView::MessageAdded { message: m, total: t.messages.len() as usize },
                    MessagesEventView::StateChanged(t),
                ],
            )
        },
        MessagesIntentView::SetVisibleLines(_) => (s, Seq::empty()),
    }
}

/// The intents that the transition function can take in the given state:
/// scrolling down needs room for one more line, scrolling to the bottom a
/// history that fits the offset.
pub open spec fn can_take(s: MessagesStateView, i: MessagesIntentView) -> bool {
    match i {
        MessagesIntentView::ScrollDown => s.scroll_offset < usize::MAX,
        MessagesIntentView::AddMessage(_) => s.messages.len() < usize::MAX,
        _ => true,
    }
}

pub struct MessagesStateMachine;

impl MessagesStateMachine {
    /// The new state and the events for an intent.
    pub fn transition(state: MessagesState, intent: MessagesIntent) -> (r: (
        MessagesState,
        Vec<MessagesEvent>,
    ))
        requires
            can_take(state@, intent@),
        ensures
            (r.0@, view_events(r.1@)) == transition_spec(state@, intent@),
    {
        match intent {
            MessagesIntent::ScrollUp => Self::handle_scroll_up(state),
            MessagesIntent::ScrollDown => Self::handle_scroll_down(state),
            MessagesIntent::ScrollToBottom => Self::handle_scroll_to_bottom(state),
            MessagesIntent::AddMessage(msg) => Self::handle_add_message(state, msg),
            MessagesIntent::SetVisibleLines(lines) => Self::handle_set_visible_lines(state, lines),
        }
    }

    fn scroll_events(state: &MessagesState) -> (r: Vec<MessagesEvent>)
        ensures
            view_events(r@) == scrolled(state@),
    {
        let r = vec![
            MessagesEvent::Scrolled { offset: state.scroll_offset },
            MessagesEvent::StateChanged(state.clone()),
        ];
        assert(view_events(r@) =~= scrolled(state@));
        r
    }

    /// One line up, unless at the top.
    pub fn handle_scroll_up(state: MessagesState) -> (r: (MessagesState, Vec<MessagesEvent>))
        ensures
            (r.0@, view_events(r.1@)) == transition_spec(state@, MessagesIntentView::ScrollUp),
    {
        let mut state = state;
        if state.scroll_offset > 0 {
            state.scroll_offset = state.scroll_offset - 1;
            let events = Self::scroll_events(&state);
            (state, events)
        } else {
            let events: Vec<MessagesEvent> = Vec::new();
            assert(view_events(events@) =~= Seq::<MessagesEventView>::empty());
            (state, events)
        }
    }

    /// One line down; the widget clamps the offset to what it can show.
    pub fn handle_scroll_down(state: MessagesState) -> (r: (MessagesState, Vec<MessagesEvent>))
        requires
            state.scroll_offset < usize::MAX,
        ensures
            (r.0@, view_events(r.1@)) == transition_spec(state@, MessagesIntentView::ScrollDown),
    {
        let mut state = state;
        state.scroll_offset = state.scroll_offset + 1;
        let events = Self::scroll_events(&state);
        (state, events)
    }

    /// To the end of the history; the widget clamps the offset.
    pub fn handle_scroll_to_bottom(state: MessagesState) -> (r: (MessagesState, Vec<MessagesEvent>))
        ensures
            (r.0@, view_events(r.1@)) == transition_spec(
                state@,
                MessagesIntentView::ScrollToBottom,
            ),
    {
        let mut state = state;
        state.scroll_offset = state.messages.len();
        let events = Self::scroll_events(&state);
        (state, events)
    }

    /// Appends a message, dropping the oldest beyond the limit.
    pub fn handle_add_message(state: MessagesState, message: BusMessage) -> (r: (
        MessagesState,
        Vec<MessagesEvent>,
    ))
        requires
            state.messages@.len() < usize::MAX,
        ensures
            (r.0@, view_events(r.1@)) == transition_spec(
                state@,
                MessagesIntentView::AddMessage(message@),
            ),
    {
        let mut state = state;
        let ghost s0 = state@;
        state.messages.push(message.clone());
        proof {
            assert(view_messages(state.messages@) =~= s0.messages.push(message@));
        }
        if state.messages.len() > state.max_messages {
            state.messages.remove(0);
            if state.scroll_offset > 0 {
                state.scroll_offset = state.scroll_offset - 1;
            }
            proof {
                assert(view_messages(state.messages@) =~= s0.messages.push(message@).drop_first());
            }
        }
        let total = state.messages.len();
        let r = vec![MessagesEvent::MessageAdded { message, total }, MessagesEvent::StateChanged(state.clone())];
        proof {
            assert(state@ == add_to(s0, message@));
            assert(view_events(r@) =~= transition_spec(
                s0,
                MessagesIntentView::AddMessage(message@),
            ).1);
        }
        (state, r)
    }

    /// The number of visible lines does not change the state.
    pub fn handle_set_visible_lines(state: MessagesState, lines: usize) -> (r: (
        MessagesState,
        Vec<MessagesEvent>,
    ))
        ensures
            (r.0@, view_events(r.1@)) == transition_spec(
                state@,
                MessagesIntentView::SetVisibleLines(lines),
            ),
    {
        let events: Vec<MessagesEvent> = Vec::new();
        assert(view_events(events@) =~= Seq::<MessagesEventView>::empty());
        (state, events)
    }
}

/// The history never holds more than the limit: adding a message to a state
/// within its limit gives a state within its limit, and every other intent
/// leaves the messages as they are.
pub proof fn lemma_history_bounded(s: MessagesStateView, i: MessagesIntentView)
    requires
        s.messages.len() <= s.max_messages,
    ensures
        transition_spec(s, i).0.messages.len() <= transition_spec(s, i).0.max_messages,
        transition_spec(s, i).0.max_messages == s.max_messages,
        !(i is AddMessage) ==> transition_spec(s, i).0.messages == s.messages,
{
}

/// Adding a message keeps the newest ones: the history after adding is the
/// last messages of the old history followed by the new one (for a limit of
/// at least one message).
pub proof fn lemma_add_keeps_newest(s: MessagesStateView, m: BusMessageView)
    requires
        s.messages.len() <= s.max_messages,
        s.max_messages > 0,
    ensures
        ({
            let t = add_to(s, m).messages;
            let all = s.messages.push(m);
            &&& t.len() == if all.len() > s.max_messages { s.max_messages as int } else { all.len() as int }
            &&& t == all.subrange(all.len() - t.len(), all.len() as int)
            &&& t.last() == m
        }),
{
    let all = s.messages.push(m);
    let t = add_to(s, m).messages;
    if all.len() > s.max_messages {
        assert(t =~= all.subrange(1, all.len() as int));
    } else {
        assert(t =~= all.subrange(0, all.len() as int));
    }
}

/// Scrolling up then down returns to the same offset, when not at the top.
pub proof fn lemma_scroll_up_down(s: MessagesStateView)
    requires
        s.scroll_offset > 0,
    ensures
        transition_spec(transition_spec(s, MessagesIntentView::ScrollUp).0, MessagesIntentView::ScrollDown).0 == s,
{
}

} // verus!
