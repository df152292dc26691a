//! The editor of a module's configuration, in the overseer card: one row per
//! field, the selected one highlighted, the one being edited with a cursor.
use vstd::prelude::*;
use crate::json::{get_bool, get_str, get_u64, json_get, Json, JsonValue};
use crate::jukebox::str_or;
use crate::panels::{binding_bool, binding_str_or, binding_u64, u64_or_zero};
use crate::side_quest::str_binding;
use crate::text::{
    chars_before_byte, chars_of, concat, is_char_boundary, owned, pad_string, pad_to, str_eq,
    string_of, substring, utf8_len,
};
use vstd::string::StringExecFns;

verus! {

/// A row of the editor: the field's label padded to 20 characters, its
/// value as shown, and whether it is selected and being edited.
pub struct EditorRow {
    pub label: String,
    pub value: String,
    pub selected: bool,
    pub editing: bool,
}

/// The editor: its title, its rows, whether the keys are shown beside the
/// rows (on a wide screen) or in one line below them, and the keys.
pub struct ConfigEditorScreen {
    pub title: String,
    pub rows: Vec<EditorRow>,
    pub side_help: bool,
    pub help: Vec<String>,
}

/// The fields of the editor: the items of `editor_fields`.
pub open spec fn editor_fields(b: Json) -> Seq<Json> {
    match json_get(b, "editor_fields"@) {
        Some(Json::Arr(items)) => items,
        _ => Seq::empty(),
    }
}

/// The text being edited: `editor_edit_buffer` while editing.
pub open spec fn edit_buffer(b: Json) -> Seq<char> {
    if get_bool(b, "editor_is_editing"@) == Some(true) {
        str_binding(b, "editor_edit_buffer"@, ""@)
    } else {
        ""@
    }
}

/// The text being edited with a cursor (`│`) at byte `cursor`: at its end
/// where `cursor` is past it.
pub open spec fn with_cursor(buf: Seq<char>, cursor: nat) -> Seq<char> {
    if cursor < utf8_len(buf) {
        let k = choose|k: int| 0 <= k <= buf.len() && #[trigger] utf8_len(buf.take(k)) == cursor;
        buf.take(k) + "│"@ + buf.skip(k)
    } else {
        buf + "│"@
    }
}

/// How a field's value is shown when it is not being edited: a check box
/// for a boolean, `< value >` for a choice, the text otherwise.
pub open spec fn shown_value(field: Json) -> Seq<char> {
    let kind = str_or(get_str(field, "value_type"@), "text"@);
    let display = str_or(get_str(field, "display_value"@), ""@);
    if kind == "bool"@ {
        if get_bool(field, "bool_value"@) == Some(true) {
            "[X] true"@
        } else {
            "[ ] false"@
        }
    } else if kind == "enum"@ {
        "< "@ + display + " >"@
    } else {
        display
    }
}

/// The number of rows shown: the fields, as many as fit.
pub open spec fn shown_rows(b: Json, height: usize) -> nat {
    if editor_fields(b).len() < height {
        editor_fields(b).len()
    } else {
        height as nat
    }
}

/// The keys beside the rows, while editing or not.
pub open spec fn side_help_lines(editing: bool) -> Seq<Seq<char>> {
    if editing {
        seq!["Editing mode:"@, ""@, "[Ent]   - Save"@, "[←]/[→] - Move cursor"@, "[Esc]   - Cancel"@]
    } else {
        seq![
            "Navigation:"@,
            ""@,
            "[↑]/[↓] - Select field"@,
            "[Ent]   - Edit text"@,
            "[Spc]   - Edit text"@,
            "[←]/[→] - Toggle bool/enum"@,
            "[s]     - Save config"@,
            "[Esc]   - Close editor"@,
        ]
    }
}

/// The keys in one line below the rows, while editing or not.
pub open spec fn bottom_help(editing: bool) -> Seq<char> {
    if editing {
        "[Ent] Save  [Esc] Cancel"@
    } else {
        "[↑]/[↓] Select  [Ent] Edit  [←]/[→] Toggle  [s] Save  [Esc] Close"@
    }
}

/// The editor can show its bindings: a cursor inside the text being edited
/// stands at the start of a character.
pub open spec fn editor_showable(b: Json, height: usize) -> bool {
    let selected = u64_or_zero(get_u64(b, "editor_selected_field"@)) as usize;
    let cursor = u64_or_zero(get_u64(b, "editor_cursor_pos"@)) as usize;
    let buf = edit_buffer(b);
    (get_bool(b, "editor_is_editing"@) == Some(true) && selected < shown_rows(b, height) && cursor
        < utf8_len(buf)) ==> is_char_boundary(buf, cursor as nat)
}

fn field_value(field: &JsonValue) -> (r: String)
    ensures
        r@ == shown_value(field@),
{
    let kind = match field.get("value_type") {
        Some(v) => match v.as_str() {
            Some(s) => s,
            None => "text",
        },
        None => "text",
    };
    let display = match field.get("display_value") {
        Some(v) => match v.as_str() {
            Some(s) => s,
            None => "",
        },
        None => "",
    };
    if str_eq(kind, "bool") {
        let on = match field.get("bool_value") {
            Some(v) => match v.as_bool() {
                Some(b) => b,
                None => false,
            },
            None => false,
        };
        if on {
            owned("[X] true")
        } else {
            owned("[ ] false")
        }
    } else if str_eq(kind, "enum") {
        let mut s = concat("< ", display);
        s.append(" >");
        s
    } else {
        owned(display)
    }
}

fn cursor_text(buf: &str, cursor: usize) -> (r: String)
    requires
        cursor < utf8_len(buf@) ==> is_char_boundary(buf@, cursor as nat),
    ensures
        r@ == with_cursor(buf@, cursor as nat),
{
    let v = chars_of(buf);
    if crate::text::byte_within(&v, cursor) {
        let k = chars_before_byte(&v, cursor);
        proof {
            let c = choose|c: int| 0 <= c <= buf@.len() && #[trigger] utf8_len(buf@.take(c)) == cursor;
            if c < k {
                crate::text::lemma_utf8_len_prefix(buf@, c, k as int);
                crate::text::lemma_utf8_len_prefix(buf@, c + 1, k as int);
                assert(buf@.take(c + 1).drop_last() =~= buf@.take(c));
            } else if c > k {
                crate::text::lemma_utf8_len_prefix(buf@, k as int + 1, c);
                assert(buf@.take(k + 1).drop_last() =~= buf@.take(k as int));
            }
            assert(c == k);
        }
        let mut s = substring(&v, 0, k);
        s.append("│");
        let rest = substring(&v, k, v.len());
        s.append(rest.as_str());
        assert(v@.subrange(0, k as int) =~= buf@.take(k as int));
        assert(v@.subrange(k as int, v@.len() as int) =~= buf@.skip(k as int));
        s
    } else {
        concat(buf, "│")
    }
}

/// The editor of a module's configuration, `height` rows high and `width`
/// columns wide: titled with the module's name, a row for each field that
/// fits, the keys beside the rows where the screen is wider than 80
/// columns, else in one line below.
pub fn config_editor_screen(bindings: &JsonValue, width: u16, height: usize) -> (r:
    ConfigEditorScreen)
    requires
        editor_showable(bindings@, height),
    ensures
        r.title@ == " Edit: "@ + str_binding(bindings@, "editor_module_name"@, "Unknown"@) + " "@,
        r.rows@.len() == shown_rows(bindings@, height),
        forall|i: int|
            0 <= i < r.rows@.len() ==> {
                let b = bindings@;
                let field = editor_fields(b)[i];
                let selected = i == u64_or_zero(get_u64(b, "editor_selected_field"@)) as usize;
                let editing = selected && get_bool(b, "editor_is_editing"@) == Some(true);
                &&& (#[trigger] r.rows@[i]).selected == selected
                &&& r.rows@[i].editing == editing
                &&& r.rows@[i].label@ == pad_to(str_or(get_str(field, "label"@), ""@), 20)
                &&& r.rows@[i].value@ == if editing {
                    with_cursor(
                        edit_buffer(b),
                        u64_or_zero(get_u64(b, "editor_cursor_pos"@)) as usize as nat,
                    )
                } else {
                    shown_value(field)
                }
            },
        r.side_help == (width > 80),
        ({
            let editing = get_bool(bindings@, "editor_is_editing"@) == Some(true);
            if width > 80 {
                r.help@.map_values(|s: String| s@) == side_help_lines(editing)
            } else {
                r.help@.map_values(|s: String| s@) == seq![bottom_help(editing)]
            }
        }),
{
    let name = binding_str_or(bindings, "editor_module_name", "Unknown");
    let mut title = concat(" Edit: ", name.as_str());
    title.append(" ");
    let selected_field = binding_u64(bindings, "editor_selected_field") as usize;
    let is_editing = binding_bool(bindings, "editor_is_editing");
    let cursor = binding_u64(bindings, "editor_cursor_pos") as usize;
    let buffer = if is_editing {
        binding_str_or(bindings, "editor_edit_buffer", "")
    } else {
        owned("")
    };
    let mut rows: Vec<EditorRow> = Vec::new();
    match bindings.get("editor_fields") {
        Some(JsonValue::Array(fields)) => {
            proof {
                crate::json::lemma_items_model(fields@, fields@.len());
            }
            let mut i: usize = 0;
            while i < fields.len() && i < height
                invariant
                    i <= fields@.len(),
                    i <= height,
                    editor_fields(bindings@) == crate::json::items_model(fields@, fields@.len()),
                    editor_fields(bindings@).len() == fields@.len(),
                    forall|j: int|
                        0 <= j < fields@.len() ==> #[trigger] editor_fields(bindings@)[j]
                            == fields@[j]@,
                    rows@.len() == i,
                    selected_field == u64_or_zero(get_u64(bindings@, "editor_selected_field"@)) as usize,
                    is_editing == (get_bool(bindings@, "editor_is_editing"@) == Some(true)),
                    cursor == u64_or_zero(get_u64(bindings@, "editor_cursor_pos"@)) as usize,
                    buffer@ == edit_buffer(bindings@),
                    editor_showable(bindings@, height),
                    shown_rows(bindings@, height) == if fields@.len() < height {
                        fields@.len()
                    } else {
                        height as nat
                    },
                    forall|j: int|
                        0 <= j < i ==> {
                            let field = editor_fields(bindings@)[j];
                            let sel = j == selected_field;
                            let ed = sel && is_editing;
                            &&& (#[trigger] rows@[j]).selected == sel
                            &&& rows@[j].editing == ed
                            &&& rows@[j].label@ == pad_to(str_or(get_str(field, "label"@), ""@), 20)
                            &&& rows@[j].value@ == if ed {
                                with_cursor(edit_buffer(bindings@), cursor as nat)
                            } else {
                                shown_value(field)
                            }
                        },
                decreases fields.len() - i,
            {
                let field = &fields[i];
                let sel = i == selected_field;
                let ed = sel && is_editing;
                let label_text = match field.get("label") {
                    Some(v) => match v.as_str() {
                        Some(s) => s,
                        None => "",
                    },
                    None => "",
                };
                let label = pad_string(label_text, 20);
                let value = if ed {
                    cursor_text(buffer.as_str(), cursor)
                } else {
                    field_value(field)
                };
                rows.push(EditorRow { label, value, selected: sel, editing: ed });
                i = i + 1;
            }
        },
        _ => {},
    }
    let side_help = width > 80;
    let help = if side_help {
        if is_editing {
            vec![
                owned("Editing mode:"),
                owned(""),
                owned("[Ent]   - Save"),
                owned("[←]/[→] - Move cursor"),
                owned("[Esc]   - Cancel"),
            ]
        } else {
            vec![
                owned("Navigation:"),
                owned(""),
                owned("[↑]/[↓] - Select field"),
                owned("[Ent]   - Edit text"),
                owned("[Spc]   - Edit text"),
                owned("[←]/[→] - Toggle bool/enum"),
                owned("[s]     - Save config"),
                owned("[Esc]   - Close editor"),
            ]
        }
    } else if is_editing {
        vec![owned("[Ent] Save  [Esc] Cancel")]
    } else {
        vec![owned("[↑]/[↓] Select  [Ent] Edit  [←]/[→] Toggle  [s] Save  [Esc] Close")]
    };
    assert(help@.map_values(|s: String| s@) =~= if side_help {
        side_help_lines(is_editing)
    } else {
        seq![bottom_help(is_editing)]
    });
    ConfigEditorScreen { title, rows, side_help, help }
}

} // verus!
