//! The side-quest card: quests to do some day, a form to create one, and
//! the details of the selected one.
use vstd::prelude::*;
use crate::json::{get_str, get_u64, json_get, JsonValue};
use crate::jukebox::str_or;
use crate::panels::{
    binding_status, binding_str_or, binding_strings, binding_u64, border_for, is_selection,
    marker, selection_lines, status_of, strings_of, u64_or_zero, views_of, ListLine, UiColor,
};
use crate::serial::opt_view;
use crate::string_utils::StringUtils;
use crate::text::{concat, decimal, owned, push_decimal, str_eq};
use vstd::string::StringExecFns;

verus! {

/// What the side-quest card shows, as read from its module's bindings.
pub struct SideQuestView {
    pub current_view: String,
    pub border_color: UiColor,
    pub selected_index: usize,
    pub quests: Vec<String>,
    pub quest_count: usize,
    pub status_message: Option<String>,
    pub has_status: bool,
    pub create_step: String,
    pub form_title: String,
    pub form_description: String,
    pub form_topic: String,
    pub form_urgency: String,
    pub available_topics: Vec<String>,
    pub urgency_options: Vec<String>,
    pub selected_quest_title: String,
    pub selected_quest_description: String,
    pub selected_quest_topic: String,
    pub selected_quest_urgency: String,
    pub selected_quest_trigger: String,
}

/// The string binding `key`, or `d`.
pub open spec fn str_binding(b: crate::json::Json, key: Seq<char>, d: Seq<char>) -> Seq<char> {
    str_or(get_str(b, key), d)
}

/// What the card shows for bindings `b`, selected or not.
pub open spec fn is_side_quest_view(v: SideQuestView, is_selected: bool, b: crate::json::Json) -> bool {
    &&& v.current_view@ == str_binding(b, "current_view"@, "QuestList"@)
    &&& v.border_color == border_for(is_selected, UiColor::Magenta)
    &&& v.selected_index == u64_or_zero(get_u64(b, "selected_index"@)) as usize
    &&& views_of(v.quests@) == strings_of(json_get(b, "quests"@))
    &&& v.quest_count == v.quests@.len()
    &&& opt_view(v.status_message) == status_of(get_str(b, "status_message"@))
    &&& v.has_status == v.status_message is Some
    &&& v.create_step@ == str_binding(b, "create_step"@, "Title"@)
    &&& v.form_title@ == str_binding(b, "form_title"@, ""@)
    &&& v.form_description@ == str_binding(b, "form_description"@, "(none)"@)
    &&& v.form_topic@ == str_binding(b, "form_topic"@, ""@)
    &&& v.form_urgency@ == str_binding(b, "form_urgency"@, ""@)
    &&& views_of(v.available_topics@) == strings_of(json_get(b, "available_topics"@))
    &&& views_of(v.urgency_options@) == strings_of(json_get(b, "urgency_options"@))
    &&& v.selected_quest_title@ == str_binding(b, "selected_quest_title"@, "Quest Details"@)
    &&& v.selected_quest_description@ == str_binding(
        b,
        "selected_quest_description"@,
        "No description"@,
    )
    &&& v.selected_quest_topic@ == str_binding(b, "selected_quest_topic"@, ""@)
    &&& v.selected_quest_urgency@ == str_binding(b, "selected_quest_urgency"@, ""@)
    &&& v.selected_quest_trigger@ == str_binding(b, "selected_quest_trigger"@, "No deadline"@)
}

/// Reads what the card shows from its module's bindings.
pub fn side_quest_view(is_selected: bool, bindings: &JsonValue) -> (r: SideQuestView)
    ensures
        is_side_quest_view(r, is_selected, bindings@),
{
    let quests = binding_strings(bindings, "quests");
    let quest_count = quests.len();
    let status_message = binding_status(bindings, "status_message");
    let has_status = status_message.is_some();
    SideQuestView {
        current_view: binding_str_or(bindings, "current_view", "QuestList"),
        border_color: if is_selected {
            UiColor::White
        } else {
            UiColor::Magenta
        },
        selected_index: binding_u64(bindings, "selected_index") as usize,
        quests,
        quest_count,
        status_message,
        has_status,
        create_step: binding_str_or(bindings, "create_step", "Title"),
        form_title: binding_str_or(bindings, "form_title", ""),
        form_description: binding_str_or(bindings, "form_description", "(none)"),
        form_topic: binding_str_or(bindings, "form_topic", ""),
        form_urgency: binding_str_or(bindings, "form_urgency", ""),
        available_topics: binding_strings(bindings, "available_topics"),
        urgency_options: binding_strings(bindings, "urgency_options"),
        selected_quest_title: binding_str_or(bindings, "selected_quest_title", "Quest Details"),
        selected_quest_description: binding_str_or(
            bindings,
            "selected_quest_description",
            "No description",
        ),
        selected_quest_topic: binding_str_or(bindings, "selected_quest_topic", ""),
        selected_quest_urgency: binding_str_or(bindings, "selected_quest_urgency", ""),
        selected_quest_trigger: binding_str_or(bindings, "selected_quest_trigger", "No deadline"),
    }
}

/// The screens of the card's detail view.
#[derive(Clone, Copy, Debug, PartialEq, Eq, Structural)]
pub enum QuestScreen {
    QuestList,
    CreateQuest,
    QuestDetail,
}

/// The screen a view name shows: the quest list for unknown names.
pub open spec fn quest_screen_named(name: Seq<char>) -> QuestScreen {
    if name == "CreateQuest"@ {
        QuestScreen::CreateQuest
    } else if name == "QuestDetail"@ {
        QuestScreen::QuestDetail
    } else {
        QuestScreen::QuestList
    }
}

pub fn quest_screen(current_view: &str) -> (r: QuestScreen)
    ensures
        r == quest_screen_named(current_view@),
{
    if str_eq(current_view, "CreateQuest") {
        QuestScreen::CreateQuest
    } else if str_eq(current_view, "QuestDetail") {
        QuestScreen::QuestDetail
    } else {
        QuestScreen::QuestList
    }
}

/// The overview of the card: how many quests are open.
pub open spec fn overview_text(count: usize) -> Seq<char> {
    "Manage Schedule Events & Tasks\n---\n["@ + decimal(count as nat) + " "@ + if count == 1 {
        "Open Item"@
    } else {
        "Open Items"@
    } + "]"@
}

pub fn quest_overview_text(count: usize) -> (r: String)
    ensures
        r@ == overview_text(count),
{
    let mut s = owned("Manage Schedule Events & Tasks\n---\n[");
    let n = StringUtils::maybe_pluralize_count(count, ("Open Item", "Open Items"));
    s.append(n.as_str());
    s.append("]");
    s
}

/// The title of the card's overview: ` ⚙️ <module name> `.
pub fn overview_title(module_name: &str) -> (r: String)
    ensures
        r@ == " ⚙️ "@ + module_name@ + " "@,
{
    let mut s = concat(" ⚙️ ", module_name);
    s.append(" ");
    s
}

/// The quest list screen.
pub struct QuestListScreen {
    pub title: String,
    /// The quests, the selected one marked; none where there is no quest.
    pub lines: Vec<ListLine>,
    /// What is shown where there is no quest.
    pub empty_text: Option<String>,
    pub status: Option<String>,
    pub help: String,
}

pub open spec fn no_quests_text() -> Seq<char> {
    "No side quests yet!\n\nPress '[n]' to create your first quest.\n\nTrack activities you want to do someday -\nrock climbing, that new restaurant,\nlearning a skill, etc."@
}

/// The quest list: a title with the number of quests, the quests with the
/// selected one marked (or a hint where there is none), the status message,
/// and the keys.
pub fn quest_list_screen(v: &SideQuestView) -> (r: QuestListScreen)
    ensures
        r.title@ == "🗺️  Side Quests ("@ + decimal(v.quest_count as nat) + ")"@,
        v.quests@.len() == 0 ==> r.lines@.len() == 0,
        v.quests@.len() == 0 ==> (r.empty_text matches Some(t) && t@ == no_quests_text()),
        v.quests@.len() > 0 ==> r.empty_text is None && is_selection(
            r.lines@,
            views_of(v.quests@),
            v.selected_index,
        ),
        opt_view(r.status) == opt_view(v.status_message),
        r.help@ == "[n]: New | [c]: Complete | [d]: Delete | [Esc]: Back"@,
{
    let mut title = owned("🗺️  Side Quests (");
    push_decimal(&mut title, v.quest_count as u64);
    title.append(")");
    let (lines, empty_text) = if v.quests.len() == 0 {
        (
            Vec::new(),
            Some(
                owned(
                    "No side quests yet!\n\nPress '[n]' to create your first quest.\n\nTrack activities you want to do someday -\nrock climbing, that new restaurant,\nlearning a skill, etc.",
                ),
            ),
        )
    } else {
        (selection_lines(&v.quests, v.selected_index), None)
    };
    let status = match &v.status_message {
        Some(s) => Some(s.clone()),
        None => None,
    };
    QuestListScreen {
        title,
        lines,
        empty_text,
        status,
        help: owned("[n]: New | [c]: Complete | [d]: Delete | [Esc]: Back"),
    }
}

/// The body of a step of the quest form.
pub enum FormBody {
    /// A text, with the entry so far.
    Text(String),
    /// A list to choose from: its title, its lines, and the colour of the
    /// selected line.
    Choices { title: String, lines: Vec<ListLine>, highlight: UiColor },
    /// Nothing, for an unknown step.
    Nothing,
}

/// A step of the quest form.
pub struct CreateQuestScreen {
    pub title: String,
    pub body: FormBody,
    pub body_border: UiColor,
    pub help: String,
}

/// The icon of an urgency.
pub open spec fn urgency_icon(u: Seq<char>) -> Seq<char> {
    if u == "Chill"@ {
        "☁️"@
    } else if u == "Casual"@ {
        "🌤️"@
    } else if u == "Moderate"@ {
        "⚡"@
    } else if u == "Pressing"@ {
        "🔥"@
    } else if u == "Critical"@ {
        "🚨"@
    } else {
        "•"@
    }
}

fn urgency_icon_exec(u: &str) -> (r: &'static str)
    ensures
        r@ == urgency_icon(u@),
{
    if str_eq(u, "Chill") {
        "☁️"
    } else if str_eq(u, "Casual") {
        "🌤️"
    } else if str_eq(u, "Moderate") {
        "⚡"
    } else if str_eq(u, "Pressing") {
        "🔥"
    } else if str_eq(u, "Critical") {
        "🚨"
    } else {
        "•"
    }
}

/// The lines of the urgency list: each urgency behind its marker and icon.
pub open spec fn is_urgency_list(lines: Seq<ListLine>, items: Seq<Seq<char>>, selected: usize) -> bool {
    &&& lines.len() == items.len()
    &&& forall|i: int|
        0 <= i < items.len() ==> (#[trigger] lines[i]).selected == (i == selected)
            && lines[i].text@ == marker(i == selected) + urgency_icon(items[i]) + " "@ + items[i]
}

fn urgency_lines(items: &Vec<String>, selected: usize) -> (r: Vec<ListLine>)
    ensures
        is_urgency_list(r@, views_of(items@), selected),
{
    let mut r: Vec<ListLine> = Vec::new();
    let mut i: usize = 0;
    while i < items.len()
        invariant
            i <= items@.len(),
            r@.len() == i,
            forall|j: int|
                0 <= j < i ==> (#[trigger] r@[j]).selected == (j == selected) && r@[j].text@
                    == marker(j == selected) + urgency_icon(items@[j]@) + " "@ + items@[j]@,
        decreases items.len() - i,
    {
        let sel = i == selected;
        let mut text = if sel {
            owned("▶ ")
        } else {
            owned("  ")
        };
        text.append(urgency_icon_exec(items[i].as_str()));
        text.append(" ");
        text.append(items[i].as_str());
        r.push(ListLine { text, selected: sel });
        i = i + 1;
    }
    r
}

pub open spec fn trigger_date_text() -> Seq<char> {
    "\nOptional: Set a trigger date\n\n[1] One week from now\n[2] One month from now\n[3] Three months from now\n\n[Enter] Skip (no deadline)"@
}

/// The keys of a step of the form.
pub open spec fn form_help(step: Seq<char>) -> Seq<char> {
    if step == "Title"@ || step == "Description"@ {
        "[Enter] Next  [Esc] Cancel"@
    } else {
        "[Esc] Cancel"@
    }
}

/// A step of the quest form: the title names the step; the title and the
/// description are typed in, the topic and the urgency are chosen from
/// lists, the trigger date from fixed offsets; the last step reviews the
/// quest.
pub fn create_quest_screen(v: &SideQuestView) -> (r: CreateQuestScreen)
    ensures
        r.title@ == "🆕 New Side Quest - "@ + v.create_step@,
        r.help@ == form_help(v.create_step@),
        r.body_border == if v.create_step@ == "Confirm"@ {
            UiColor::Green
        } else {
            v.border_color
        },
        v.create_step@ == "Title"@ ==> (r.body matches FormBody::Text(t) && t@ == "\nQuest Title:\n\n"@
            + v.form_title@ + "_"@),
        v.create_step@ == "Description"@ ==> (r.body matches FormBody::Text(t) && t@
            == "\nDescription (optional):\n\n"@ + v.form_description@ + "_"@),
        v.create_step@ == "Topic"@ ==> (r.body matches FormBody::Choices { title, lines, highlight }
            && title@ == " Select Topic "@ && highlight == UiColor::Cyan && is_selection(
            lines@,
            views_of(v.available_topics@),
            v.selected_index,
        )),
        v.create_step@ == "Urgency"@ ==> (r.body matches FormBody::Choices {
            title,
            lines,
            highlight,
        } && title@ == " Select Urgency "@ && highlight == UiColor::Yellow && is_urgency_list(
            lines@,
            views_of(v.urgency_options@),
            v.selected_index,
        )),
        v.create_step@ == "TriggerDate"@ ==> (r.body matches FormBody::Text(t) && t@
            == trigger_date_text()),
        v.create_step@ == "Confirm"@ ==> (r.body matches FormBody::Text(t) && t@
            == "\nReview your quest:\n\nTitle: "@ + v.form_title@ + "\nDescription: "@
            + v.form_description@ + "\nTopic: "@ + v.form_topic@ + "\nUrgency: "@ + v.form_urgency@
            + "\n\nCreate this quest? ([y]/[n])"@),
        !(v.create_step@ == "Title"@ || v.create_step@ == "Description"@ || v.create_step@
            == "Topic"@ || v.create_step@ == "Urgency"@ || v.create_step@ == "TriggerDate"@
            || v.create_step@ == "Confirm"@) ==> r.body is Nothing,
{
    proof {
        reveal_strlit("Title");
        reveal_strlit("Description");
        reveal_strlit("Topic");
        reveal_strlit("Urgency");
        reveal_strlit("TriggerDate");
        reveal_strlit("Confirm");
        assert("Title"@[1] != "Topic"@[1]);
        assert("Urgency"@[0] != "Confirm"@[0]);
        assert("Description"@[0] != "TriggerDate"@[0]);
    }
    let step = v.create_step.as_str();
    let title = concat("🆕 New Side Quest - ", step);
    let is_title = str_eq(step, "Title");
    let is_description = str_eq(step, "Description");
    let is_confirm = str_eq(step, "Confirm");
    let body = if is_title {
        let mut t = owned("\nQuest Title:\n\n");
        t.append(v.form_title.as_str());
        t.append("_");
        FormBody::Text(t)
    } else if is_description {
        let mut t = owned("\nDescription (optional):\n\n");
        t.append(v.form_description.as_str());
        t.append("_");
        FormBody::Text(t)
    } else if str_eq(step, "Topic") {
        FormBody::Choices {
            title: owned(" Select Topic "),
            lines: selection_lines(&v.available_topics, v.selected_index),
            highlight: UiColor::Cyan,
        }
    } else if str_eq(step, "Urgency") {
        FormBody::Choices {
            title: owned(" Select Urgency "),
            lines: urgency_lines(&v.urgency_options, v.selected_index),
            highlight: UiColor::Yellow,
        }
    } else if str_eq(step, "TriggerDate") {
        FormBody::Text(
            owned(
                "\nOptional: Set a trigger date\n\n[1] One week from now\n[2] One month from now\n[3] Three months from now\n\n[Enter] Skip (no deadline)",
            ),
        )
    } else if is_confirm {
        let mut t = owned("\nReview your quest:\n\nTitle: ");
        t.append(v.form_title.as_str());
        t.append("\nDescription: ");
        t.append(v.form_description.as_str());
        t.append("\nTopic: ");
        t.append(v.form_topic.as_str());
        t.append("\nUrgency: ");
        t.append(v.form_urgency.as_str());
        t.append("\n\nCreate this quest? ([y]/[n])");
        FormBody::Text(t)
    } else {
        FormBody::Nothing
    };
    let help = if is_title || is_description {
        owned("[Enter] Next  [Esc] Cancel")
    } else {
        owned("[Esc] Cancel")
    };
    CreateQuestScreen {
        title,
        body,
        body_border: if is_confirm {
            UiColor::Green
        } else {
            v.border_color
        },
        help,
    }
}

/// The details of the selected quest.
pub struct QuestDetailScreen {
    pub title: String,
    pub details: String,
    pub help: String,
}

pub fn quest_detail_screen(v: &SideQuestView) -> (r: QuestDetailScreen)
    ensures
        r.title@ == "📋 "@ + v.selected_quest_title@,
        r.details@ == "\nTopic: "@ + v.selected_quest_topic@ + "\nUrgency: "@
            + v.selected_quest_urgency@ + "\nDeadline: "@ + v.selected_quest_trigger@
            + "\n\nDescription:\n"@ + v.selected_quest_description@,
        r.help@ == "[c] Complete  [Esc] Back"@,
{
    let mut details = owned("\nTopic: ");
    details.append(v.selected_quest_topic.as_str());
    details.append("\nUrgency: ");
    details.append(v.selected_quest_urgency.as_str());
    details.append("\nDeadline: ");
    details.append(v.selected_quest_trigger.as_str());
    details.append("\n\nDescription:\n");
    details.append(v.selected_quest_description.as_str());
    QuestDetailScreen {
        title: concat("📋 ", v.selected_quest_title.as_str()),
        details,
        help: owned("[c] Complete  [Esc] Back"),
    }
}

} // verus!
