//! The registry of module card templates, by the names module
//! configurations give them.
use vstd::prelude::*;
use crate::text::str_eq;

verus! {

/// The card templates a module can name.
#[derive(Clone, Copy, Debug, PartialEq, Eq, Structural)]
pub enum TemplateKind {
    GaugeCard,
    HistoryChart,
    StatusBadgeCard,
    ChartCard,
    ToggleSwitch,
    ActivityCard,
    LlmCard,
    OverseerCard,
    SideQuestCard,
}

/// The template registered under a name.
pub open spec fn template_named(name: Seq<char>) -> Option<TemplateKind> {
    if name == "gauge_card"@ {
        Some(TemplateKind::GaugeCard)
    } else if name == "history_chart"@ {
        Some(TemplateKind::HistoryChart)
    } else if name == "status_badge_card"@ {
        Some(TemplateKind::StatusBadgeCard)
    } else if name == "chart_card"@ {
        Some(TemplateKind::ChartCard)
    } else if name == "toggle_switch"@ {
        Some(TemplateKind::ToggleSwitch)
    } else if name == "activity_card"@ {
        Some(TemplateKind::ActivityCard)
    } else if name == "llm_card"@ {
        Some(TemplateKind::LlmCard)
    } else if name == "overseer_card"@ {
        Some(TemplateKind::OverseerCard)
    } else if name == "side_quest_card"@ {
        Some(TemplateKind::SideQuestCard)
    } else {
        None
    }
}

/// The template registered under a name, if any.
pub fn get_template(name: &str) -> (r: Option<TemplateKind>)
    ensures
        r == template_named(name@),
{
    if str_eq(name, "gauge_card") {
        Some(TemplateKind::GaugeCard)
    } else if str_eq(name, "history_chart") {
        Some(TemplateKind::HistoryChart)
    } else if str_eq(name, "status_badge_card") {
        Some(TemplateKind::StatusBadgeCard)
    } else if str_eq(name, "chart_card") {
        Some(TemplateKind::ChartCard)
    } else if str_eq(name, "toggle_switch") {
        Some(TemplateKind::ToggleSwitch)
    } else if str_eq(name, "activity_card") {
        Some(TemplateKind::ActivityCard)
    } else if str_eq(name, "llm_card") {
        Some(TemplateKind::LlmCard)
    } else if str_eq(name, "overseer_card") {
        Some(TemplateKind::OverseerCard)
    } else if str_eq(name, "side_quest_card") {
        Some(TemplateKind::SideQuestCard)
    } else {
        None
    }
}

/// The bindings a module's configuration must give for its template. The
/// history chart and the status badge card name none here.
pub open spec fn required_bindings_of(k: TemplateKind) -> Seq<Seq<char>> {
    match k {
        TemplateKind::GaugeCard => seq!["a"@, "max_value"@],
        TemplateKind::ChartCard => seq!["a"@, "chart_type"@],
        TemplateKind::ToggleSwitch => seq!["state"@],
        TemplateKind::ActivityCard => seq!["activity_log"@],
        TemplateKind::LlmCard => seq!["model_info"@, "chat_history"@, "chat_input"@, "scroll_offset"@],
        TemplateKind::OverseerCard => seq!["current_view"@, "selected_index"@],
        TemplateKind::SideQuestCard => seq!["current_view"@, "quests"@, "selected_index"@],
        TemplateKind::HistoryChart | TemplateKind::StatusBadgeCard => Seq::empty(),
    }
}

impl TemplateKind {
    /// The bindings a module's configuration must give for this template.
    pub fn required_bindings(&self) -> (r: Vec<&'static str>)
        ensures
            r@.map_values(|b: &str| b@) == required_bindings_of(*self),
    {
        let r: Vec<&'static str> = match self {
            TemplateKind::GaugeCard => vec!["a", "max_value"],
            TemplateKind::ChartCard => vec!["a", "chart_type"],
            TemplateKind::ToggleSwitch => vec!["state"],
            TemplateKind::ActivityCard => vec!["activity_log"],
            TemplateKind::LlmCard => vec!["model_info", "chat_history", "chat_input", "scroll_offset"],
            TemplateKind::OverseerCard => vec!["current_view", "selected_index"],
            TemplateKind::SideQuestCard => vec!["current_view", "quests", "selected_index"],
            TemplateKind::HistoryChart | TemplateKind::StatusBadgeCard => Vec::new(),
        };
        assert(r@.map_values(|b: &str| b@) =~= required_bindings_of(*self));
        r
    }
}

/// Every template that discovery picks for a device is registered.
pub proof fn lemma_discovery_templates_registered(c: crate::discovery::DeviceCapabilities)
    ensures
        template_named(crate::discovery::template_for(c)) is Some,
{
}

} // verus!
