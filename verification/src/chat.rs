//! The chat card of a knowledge module: the conversation, with the source
//! links of the answers numbered so that one can be selected and opened.
use vstd::prelude::*;
use crate::json::{get_i64, get_u64, json_get, Json, JsonValue};
use crate::panels::{binding_str_or, binding_strings, binding_u64, strings_of, u64_or_zero, views_of};
use crate::side_quest::str_binding;
use crate::text::{
    chars_of, concat, contains, count_matches, count_matches_exec, file_name_of, find_exec,
    first_index, lemma_first_index, lines_of, owned, path_file_name, str_eq, str_lines,
    string_of, substring, trim_end_char, trim_end_char_exec,
};
use vstd::string::StringExecFns;

verus! {

/// What the chat card shows, as read from its module's bindings.
pub struct ChatView {
    pub model_info: String,
    pub chat_history: Vec<String>,
    pub chat_input: String,
    pub scroll_offset: u16,
    pub current_link_index: Option<usize>,
}

pub open spec fn is_chat_view(v: ChatView, b: Json) -> bool {
    &&& v.model_info@ == str_binding(b, "model_info"@, "No model loaded"@)
    &&& views_of(v.chat_history@) == strings_of(json_get(b, "chat_history"@))
    &&& v.chat_input@ == str_binding(b, "chat_input"@, ""@)
    &&& v.scroll_offset == u64_or_zero(get_u64(b, "scroll_offset"@)) as u16
    &&& v.current_link_index == match get_i64(b, "current_link_index"@) {
        Some(i) => Some(i as usize),
        None => None,
    }
}

/// Reads what the card shows from its module's bindings.
pub fn chat_view(bindings: &JsonValue) -> (r: ChatView)
    ensures
        is_chat_view(r, bindings@),
{
    let current_link_index = match bindings.get("current_link_index") {
        Some(v) => match v.as_i64() {
            Some(i) => Some(i as usize),
            None => None,
        },
        None => None,
    };
    ChatView {
        model_info: binding_str_or(bindings, "model_info", "No model loaded"),
        chat_history: binding_strings(bindings, "chat_history"),
        chat_input: binding_str_or(bindings, "chat_input", ""),
        scroll_offset: binding_u64(bindings, "scroll_offset") as u16,
        current_link_index,
    }
}

/// The title of the card: `🤖 <module name> - Interactive Chat`.
pub fn chat_title(module_name: &str) -> (r: String)
    ensures
        r@ == "🤖 "@ + module_name@ + " - Interactive Chat"@,
{
    let mut s = concat("🤖 ", module_name);
    s.append(" - Interactive Chat");
    s
}

/// The input line: `> <input>`.
pub fn input_line(chat_input: &str) -> (r: String)
    ensures
        r@ == "> "@ + chat_input@,
{
    concat("> ", chat_input)
}

/// A line of the conversation.
pub enum ChatLine {
    /// The first line of a message, behind `You: ` for the user and
    /// `Assistant: ` otherwise.
    Head { user: bool, text: String },
    /// A further line, indented.
    Body(String),
    /// A source link: the text before `(from `, then the file name behind an
    /// arrow when the link is the selected one.
    Link { before: String, file: String, selected: bool },
    /// The gap after a message.
    Blank,
}

pub enum ChatLineModel {
    Head { user: bool, text: Seq<char> },
    Body(Seq<char>),
    Link { before: Seq<char>, file: Seq<char>, selected: bool },
    Blank,
}

impl View for ChatLine {
    type V = ChatLineModel;

    open spec fn view(&self) -> ChatLineModel {
        match self {
            ChatLine::Head { user, text } => ChatLineModel::Head { user: *user, text: text@ },
            ChatLine::Body(t) => ChatLineModel::Body(t@),
            ChatLine::Link { before, file, selected } => ChatLineModel::Link {
                before: before@,
                file: file@,
                selected: *selected,
            },
            ChatLine::Blank => ChatLineModel::Blank,
        }
    }
}

pub open spec fn view_lines(v: Seq<ChatLine>) -> Seq<ChatLineModel> {
    v.map_values(|l: ChatLine| l@)
}

/// A message `role:content`, cut at its first colon.
pub open spec fn split_role(msg: Seq<char>) -> Option<(Seq<char>, Seq<char>)> {
    if contains(msg, ":"@) {
        let i = first_index(msg, ":"@);
        Some((msg.take(i), msg.skip(i + 1)))
    } else {
        None
    }
}

/// A line of an answer that cites a source.
pub open spec fn is_link(l: Seq<char>) -> bool {
    contains(l, "(from "@)
}

/// The link a source line shows, where it cites exactly one source.
pub open spec fn link_line(l: Seq<char>, selected: bool) -> Option<ChatLineModel> {
    if count_matches(l, "(from "@) == 1 {
        let i = first_index(l, "(from "@);
        let file_part = trim_end_char(l.skip(i + 6), ')');
        let name = match file_name_of(file_part) {
            Some(n) => n,
            None => file_part,
        };
        Some(
            ChatLineModel::Link {
                before: l.take(i),
                file: (if selected {
                    " → "@
                } else {
                    " "@
                }) + name,
                selected,
            },
        )
    } else {
        None
    }
}

/// The number of source lines among `ls`.
pub open spec fn links_in(ls: Seq<Seq<char>>) -> nat
    decreases ls.len(),
{
    if ls.len() == 0 {
        0
    } else {
        links_in(ls.drop_last()) + if is_link(ls.last()) {
            1nat
        } else {
            0nat
        }
    }
}

/// A further line of a message, with `k` source lines before it.
pub open spec fn body_line(l: Seq<char>, current: Option<usize>, k: nat) -> Seq<ChatLineModel> {
    if is_link(l) {
        match link_line(l, current == Some(k as usize) && k <= usize::MAX) {
            Some(x) => seq![x],
            None => Seq::empty(),
        }
    } else {
        seq![ChatLineModel::Body(l)]
    }
}

/// The further lines of a message, with `n` source lines before them.
pub open spec fn body_lines(ls: Seq<Seq<char>>, current: Option<usize>, n: nat) -> Seq<ChatLineModel>
    decreases ls.len(),
{
    if ls.len() == 0 {
        Seq::empty()
    } else {
        body_lines(ls.drop_last(), current, n) + body_line(
            ls.last(),
            current,
            n + links_in(ls.drop_last()),
        )
    }
}

/// The lines after the first.
pub open spec fn after_first(ls: Seq<Seq<char>>) -> Seq<Seq<char>> {
    if ls.len() == 0 {
        Seq::empty()
    } else {
        ls.skip(1)
    }
}

/// The source lines of a message.
pub open spec fn message_links(msg: Seq<char>) -> nat {
    match split_role(msg) {
        Some((_, content)) => links_in(after_first(str_lines(content))),
        None => 0,
    }
}

/// The lines of a message, with `n` source lines before it; a message with
/// no colon shows nothing.
pub open spec fn message_lines(msg: Seq<char>, current: Option<usize>, n: nat) -> Seq<
    ChatLineModel,
> {
    match split_role(msg) {
        Some((role, content)) => {
            let ls = str_lines(content);
            let first = if ls.len() > 0 {
                ls[0]
            } else {
                Seq::empty()
            };
            seq![ChatLineModel::Head { user: role == "user"@, text: first }] + body_lines(
                after_first(ls),
                current,
                n,
            ) + seq![ChatLineModel::Blank]
        },
        None => Seq::empty(),
    }
}

/// The source lines of a conversation.
pub open spec fn conversation_links(msgs: Seq<Seq<char>>) -> nat
    decreases msgs.len(),
{
    if msgs.len() == 0 {
        0
    } else {
        conversation_links(msgs.drop_last()) + message_links(msgs.last())
    }
}

/// The lines of a conversation: the messages in order, the source links
/// numbered from 0 across it, the one numbered `current` selected.
pub open spec fn conversation_lines(msgs: Seq<Seq<char>>, current: Option<usize>) -> Seq<
    ChatLineModel,
>
    decreases msgs.len(),
{
    if msgs.len() == 0 {
        Seq::empty()
    } else {
        conversation_lines(msgs.drop_last(), current) + message_lines(
            msgs.last(),
            current,
            conversation_links(msgs.drop_last()),
        )
    }
}

fn link_of(l: &Vec<char>, selected: bool) -> (r: Option<ChatLine>)
    ensures
        match link_line(l@, selected) {
            Some(x) => r matches Some(c) && c@ == x,
            None => r is None,
        },
{
    let pat = chars_of("(from ");
    proof {
        reveal_strlit("(from ");
    }
    if count_matches_exec(l, &pat) != 1 {
        return None;
    }
    proof {
        crate::text::lemma_count_implies_contains(l@, pat@);
    }
    let i = match find_exec(l, &pat) {
        Some(i) => i,
        None => return None,
    };
    proof {
        lemma_first_index(l@, pat@, i as int);
        assert(pat@.len() == 6);
    }
    let n = l.len();
    assert(i + 6 <= n);
    let tail = crate::text::slice_vec(l, i + 6, n);
    let file_part = trim_end_char_exec(&tail, ')');
    let file_text = string_of(&file_part);
    let name = match path_file_name(file_text.as_str()) {
        Some(n) => n,
        None => file_text,
    };
    let file = if selected {
        concat(" → ", name.as_str())
    } else {
        concat(" ", name.as_str())
    };
    assert(tail@ =~= l@.skip(i + 6));
    Some(ChatLine::Link { before: substring(l, 0, i), file, selected })
}


/// `counter` counts `n` source lines, or has overflowed where `n` does not
/// fit.
pub open spec fn counts(counter: Option<usize>, n: nat) -> bool {
    match counter {
        Some(c) => c == n,
        None => n > usize::MAX,
    }
}

fn next_count(counter: Option<usize>, Ghost(n): Ghost<nat>) -> (r: Option<usize>)
    requires
        counts(counter, n),
    ensures
        counts(r, n + 1),
{
    match counter {
        Some(c) => c.checked_add(1),
        None => None,
    }
}

fn push_message(
    msg: &str,
    current: Option<usize>,
    counter: Option<usize>,
    Ghost(n): Ghost<nat>,
    out: &mut Vec<ChatLine>,
) -> (next: Option<usize>)
    requires
        counts(counter, n),
    ensures
        view_lines(final(out)@) == view_lines(old(out)@) + message_lines(msg@, current, n),
        counts(next, n + message_links(msg@)),
{
    let v = chars_of(msg);
    let colon = chars_of(":");
    let i = match find_exec(&v, &colon) {
        Some(i) => i,
        None => {
            assert(view_lines(out@) =~= view_lines(old(out)@) + message_lines(msg@, current, n));
            return counter;
        },
    };
    proof {
        lemma_first_index(v@, colon@, i as int);
        reveal_strlit(":");
    }
    let role = substring(&v, 0, i);
    let content = substring(&v, i + 1, v.len());
    assert(role@ =~= msg@.take(i as int));
    assert(content@ =~= msg@.skip(i + 1));
    let user = str_eq(role.as_str(), "user");
    let ls = lines_of(content.as_str());
    let ghost lv = ls@.map_values(|l: String| l@);
    let first = if ls.len() > 0 {
        ls[0].clone()
    } else {
        String::new()
    };
    let ghost base = view_lines(out@);
    out.push(ChatLine::Head { user, text: first });
    let ghost head = seq![
        ChatLineModel::Head { user: role@ == "user"@, text: if lv.len() > 0 { lv[0] } else { Seq::empty() } },
    ];
    assert(view_lines(out@) =~= base + head);
    let mut counter = counter;
    let mut j: usize = 1;
    assert(after_first(lv).take(0) =~= Seq::<Seq<char>>::empty());
    while j < ls.len()
        invariant
            1 <= j <= ls@.len() || (j == 1 && ls@.len() == 0),
            lv == ls@.map_values(|l: String| l@),
            view_lines(out@) == base + head + body_lines(after_first(lv).take(j - 1), current, n),
            counts(counter, n + links_in(after_first(lv).take(j - 1))),
        decreases ls.len() - j,
    {
        let ghost prev = after_first(lv).take(j - 1);
        let ghost cur = after_first(lv).take(j as int);
        assert(cur.drop_last() =~= prev);
        assert(cur.last() == lv[j as int]);
        let l = chars_of(ls[j].as_str());
        let pat = chars_of("(from ");
        let ghost before = view_lines(out@);
        match find_exec(&l, &pat) {
            Some(_) => {
                let sel = match counter {
                    Some(c) => match current {
                        Some(x) => x == c,
                        None => false,
                    },
                    None => false,
                };
                match link_of(&l, sel) {
                    Some(x) => {
                        out.push(x);
                        assert(view_lines(out@) =~= before.push(x@));
                    },
                    None => {},
                }
                counter = next_count(counter, Ghost(n + links_in(prev)));
            },
            None => {
                out.push(ChatLine::Body(ls[j].clone()));
                assert(view_lines(out@) =~= before.push(ChatLineModel::Body(lv[j as int])));
            },
        }
        j = j + 1;
        assert(view_lines(out@) =~= base + head + body_lines(cur, current, n));
    }
    proof {
        assert(after_first(lv).take(j - 1) =~= after_first(lv));
    }
    let ghost body = view_lines(out@);
    out.push(ChatLine::Blank);
    assert(view_lines(out@) =~= body.push(ChatLineModel::Blank));
    assert(view_lines(out@) =~= view_lines(old(out)@) + message_lines(msg@, current, n));
    counter
}

/// The lines of the conversation `messages` (each `role:content`), with
/// the source link numbered `current` selected.
pub fn chat_lines(messages: &Vec<String>, current: Option<usize>) -> (r: Vec<ChatLine>)
    ensures
        view_lines(r@) == conversation_lines(views_of(messages@), current),
{
    let ghost mv = views_of(messages@);
    let mut out: Vec<ChatLine> = Vec::new();
    let mut counter: Option<usize> = Some(0);
    let mut i: usize = 0;
    while i < messages.len()
        invariant
            i <= messages@.len(),
            mv == views_of(messages@),
            view_lines(out@) == conversation_lines(mv.take(i as int), current),
            counts(counter, conversation_links(mv.take(i as int))),
        decreases messages.len() - i,
    {
        let ghost prev = mv.take(i as int);
        let ghost cur = mv.take(i + 1);
        assert(cur.drop_last() =~= prev);
        assert(cur.last() == messages@[i as int]@);
        counter = push_message(
            messages[i].as_str(),
            current,
            counter,
            Ghost(conversation_links(prev)),
            &mut out,
        );
        i = i + 1;
    }
    assert(mv.take(i as int) =~= mv);
    out
}

/// The lines shown before the first message.
pub open spec fn welcome_lines() -> Seq<Seq<char>> {
    seq![
        "Welcome to your Survon LLM assistant!"@,
        ""@,
        "I can help you with:"@,
        "• Homestead management questions"@,
        "• IoT device control and monitoring"@,
        "• Information from your knowledge modules"@,
        ""@,
        "Try asking: 'What can you do?' or 'Help with my gate system'"@,
    ]
}

pub fn welcome_text() -> (r: Vec<String>)
    ensures
        views_of(r@) == welcome_lines(),
{
    let r = vec![
        owned("Welcome to your Survon LLM assistant!"),
        owned(""),
        owned("I can help you with:"),
        owned("• Homestead management questions"),
        owned("• IoT device control and monitoring"),
        owned("• Information from your knowledge modules"),
        owned(""),
        owned("Try asking: 'What can you do?' or 'Help with my gate system'"),
    ];
    assert(views_of(r@) =~= welcome_lines());
    r
}

} // verus!
