//! What the module cards of the terminal UI read from a module's bindings,
//! and the pieces their screens are made of. Drawing them is left to the
//! application.
use vstd::prelude::*;
use crate::json::{get_bool, get_str, get_u64, json_get, Json, JsonValue};
use crate::jukebox::str_or;
use crate::text::{concat, owned};
use vstd::string::{StrSliceExecFns, StringExecFns};

verus! {

/// The colours the cards use.
#[derive(Clone, Copy, Debug, PartialEq, Eq, Structural)]
pub enum UiColor {
    White,
    Black,
    Gray,
    DarkGray,
    Red,
    Green,
    Yellow,
    Blue,
    Magenta,
    Cyan,
}

/// A line of a selection list: its text, and whether it is the selected one.
pub struct ListLine {
    pub text: String,
    pub selected: bool,
}

/// The string member `key` of the bindings, or `default`.
pub fn binding_str_or(bindings: &JsonValue, key: &str, default: &str) -> (r: String)
    ensures
        r@ == str_or(get_str(bindings@, key@), default@),
{
    match bindings.get(key) {
        Some(v) => match v.as_str() {
            Some(s) => owned(s),
            None => owned(default),
        },
        None => owned(default),
    }
}

/// The non-negative integer member `key`, or 0.
pub open spec fn u64_or_zero(v: Option<u64>) -> u64 {
    match v {
        Some(n) => n,
        None => 0,
    }
}

/// The non-negative integer member `key` of the bindings, or 0.
pub fn binding_u64(bindings: &JsonValue, key: &str) -> (r: u64)
    ensures
        r == u64_or_zero(get_u64(bindings@, key@)),
{
    match bindings.get(key) {
        Some(v) => match v.as_u64() {
            Some(n) => n,
            None => 0,
        },
        None => 0,
    }
}

/// The boolean member `key` of the bindings, or `false`.
pub fn binding_bool(bindings: &JsonValue, key: &str) -> (r: bool)
    ensures
        r == (get_bool(bindings@, key@) == Some(true)),
{
    match bindings.get(key) {
        Some(v) => match v.as_bool() {
            Some(b) => b,
            None => false,
        },
        None => false,
    }
}

/// The string items of a list, in order; other items are skipped.
pub open spec fn string_items(items: Seq<Json>) -> Seq<Seq<char>>
    decreases items.len(),
{
    if items.len() == 0 {
        Seq::empty()
    } else {
        let rest = string_items(items.drop_last());
        match items.last() {
            Json::Str(s) => rest.push(s),
            _ => rest,
        }
    }
}

/// The strings of the array member `key`; none where it is not an array.
pub open spec fn strings_of(member: Option<Json>) -> Seq<Seq<char>> {
    match member {
        Some(Json::Arr(items)) => string_items(items),
        _ => Seq::empty(),
    }
}

/// The length of the array member `key`; 0 where it is not an array.
pub open spec fn array_len(member: Option<Json>) -> nat {
    match member {
        Some(Json::Arr(items)) => items.len(),
        _ => 0,
    }
}

pub open spec fn views_of(v: Seq<String>) -> Seq<Seq<char>> {
    v.map_values(|s: String| s@)
}

/// The strings of the array member `key` of the bindings.
pub fn binding_strings(bindings: &JsonValue, key: &str) -> (r: Vec<String>)
    ensures
        views_of(r@) == strings_of(json_get(bindings@, key@)),
{
    let mut r: Vec<String> = Vec::new();
    match bindings.get(key) {
        Some(JsonValue::Array(items)) => {
            proof {
                crate::json::lemma_items_model(items@, items@.len());
            }
            let ghost model = crate::json::items_model(items@, items@.len());
            let mut i: usize = 0;
            while i < items.len()
                invariant
                    i <= items@.len(),
                    model == crate::json::items_model(items@, items@.len()),
                    model.len() == items@.len(),
                    forall|j: int| 0 <= j < items@.len() ==> #[trigger] model[j] == items@[j]@,
                    views_of(r@) == string_items(model.take(i as int)),
                decreases items.len() - i,
            {
                let ghost before = r@;
                proof {
                    let t = model.take(i + 1);
                    assert(t.drop_last() =~= model.take(i as int));
                    assert(t.last() == items@[i as int]@);
                }
                match &items[i] {
                    JsonValue::String(s) => {
                        r.push(s.clone());
                        assert(views_of(r@) =~= views_of(before).push(s@));
                    },
                    _ => {},
                }
                i = i + 1;
            }
            assert(model.take(i as int) =~= model);
        },
        _ => {},
    }
    assert(views_of(r@) =~= strings_of(json_get(bindings@, key@)));
    r
}

/// The length of the array member `key` of the bindings.
pub fn binding_array_len(bindings: &JsonValue, key: &str) -> (r: usize)
    ensures
        r == array_len(json_get(bindings@, key@)),
{
    match bindings.get(key) {
        Some(JsonValue::Array(items)) => {
            proof {
                crate::json::lemma_items_model(items@, items@.len());
            }
            items.len()
        },
        _ => 0,
    }
}

/// A status message: the string member `key`, where it is not empty.
pub open spec fn status_of(v: Option<Seq<char>>) -> Option<Seq<char>> {
    match v {
        Some(s) => if s.len() > 0 {
            Some(s)
        } else {
            None
        },
        None => None,
    }
}

/// The status message of the bindings: the string member `key`, where it
/// is not empty.
pub fn binding_status(bindings: &JsonValue, key: &str) -> (r: Option<String>)
    ensures
        crate::serial::opt_view(r) == status_of(get_str(bindings@, key@)),
{
    match bindings.get(key) {
        Some(v) => match v.as_str() {
            Some(s) => if s.unicode_len() > 0 {
                Some(owned(s))
            } else {
                None
            },
            None => None,
        },
        None => None,
    }
}

/// The marker in front of a list entry: an arrow for the selected one.
pub open spec fn marker(selected: bool) -> Seq<char> {
    if selected {
        "▶ "@
    } else {
        "  "@
    }
}

/// The lines of a selection list: each entry behind its marker.
pub open spec fn is_selection(lines: Seq<ListLine>, items: Seq<Seq<char>>, selected: usize) -> bool {
    &&& lines.len() == items.len()
    &&& forall|i: int|
        0 <= i < items.len() ==> (#[trigger] lines[i]).selected == (i == selected)
            && lines[i].text@ == marker(i == selected) + items[i]
}

/// The lines of a selection list over `items`, with entry `selected`
/// marked.
pub fn selection_lines(items: &Vec<String>, selected: usize) -> (r: Vec<ListLine>)
    ensures
        is_selection(r@, views_of(items@), selected),
{
    let mut r: Vec<ListLine> = Vec::new();
    let mut i: usize = 0;
    while i < items.len()
        invariant
            i <= items@.len(),
            r@.len() == i,
            forall|j: int|
                0 <= j < i ==> (#[trigger] r@[j]).selected == (j == selected) && r@[j].text@
                    == marker(j == selected) + items@[j]@,
        decreases items.len() - i,
    {
        let sel = i == selected;
        let text = if sel {
            concat("▶ ", items[i].as_str())
        } else {
            concat("  ", items[i].as_str())
        };
        r.push(ListLine { text, selected: sel });
        i = i + 1;
    }
    r
}

/// The border of a card: white when the card is selected.
pub open spec fn border_for(is_selected: bool, otherwise: UiColor) -> UiColor {
    if is_selected {
        UiColor::White
    } else {
        otherwise
    }
}


/// The lines of a list over `items` with the selected entry behind `mark`
/// and the others behind two spaces.
pub open spec fn is_marked_list(
    lines: Seq<ListLine>,
    items: Seq<Seq<char>>,
    selected: usize,
    mark: Seq<char>,
) -> bool {
    &&& lines.len() == items.len()
    &&& forall|i: int|
        0 <= i < items.len() ==> (#[trigger] lines[i]).selected == (i == selected)
            && lines[i].text@ == (if i == selected {
            mark
        } else {
            "  "@
        }) + items[i]
}

/// The lines of a list over `items`, with entry `selected` behind `mark`.
pub fn marked_lines(items: &Vec<String>, selected: usize, mark: &str) -> (r: Vec<ListLine>)
    ensures
        is_marked_list(r@, views_of(items@), selected, mark@),
{
    let mut r: Vec<ListLine> = Vec::new();
    let mut i: usize = 0;
    while i < items.len()
        invariant
            i <= items@.len(),
            r@.len() == i,
            forall|j: int|
                0 <= j < i ==> (#[trigger] r@[j]).selected == (j == selected) && r@[j].text@ == (if j
                    == selected {
                    mark@
                } else {
                    "  "@
                }) + items@[j]@,
        decreases items.len() - i,
    {
        let sel = i == selected;
        let text = if sel {
            concat(mark, items[i].as_str())
        } else {
            concat("  ", items[i].as_str())
        };
        r.push(ListLine { text, selected: sel });
        i = i + 1;
    }
    r
}

/// The panel below a list: the scan in progress with its countdown, a
/// status message, or nothing.
pub enum StatusPanel {
    Scanning(u8),
    Message(String),
    Hidden,
}

} // verus!
