//! A Chat Completions request turned into a Responses request: messages
//! become input items, tools and the tool choice take the Responses shape
//! under upstream tool names, and the output format carries over.
use vstd::prelude::*;
use crate::json::{
    JsonValue, JsonView, entries_view, items_view, json_view, view_member, view_field, view_text, get_entry,
    lemma_view_member_at, lemma_view_member_absent,
    push_entry, push_item, clone_json, lemma_items_view, lemma_entries_view,
};
use crate::models::{resolve_alias, supported_catalog, resolve_supported_model_alias};
use crate::text::{
    trim, lower, eq_ignore_case, chars_of, string_of, trim_str, str_eq, lit, concat_str, eq_ignore_case_exec,
    copy_string, lower_char,
};
use crate::chat_payload::append_non_empty;
use crate::images::{flag_of, flag_exec, include_key};
use crate::toolnames::{
    ToolNameMap, mapped_tool_name, map_tool_name, name_pairs, body_tool_names, build_short_tool_name_map,
};

verus! {

broadcast use vstd::string::group_string_axioms;

/// The text of a view, or a default.
pub open spec fn text_or(v: Option<JsonView>, default: Seq<char>) -> Seq<char> {
    match view_text(v) {
        Some(t) => t,
        None => default,
    }
}

/// The text of a member, or a default.
fn text_or_exec(entries: &Vec<(String, JsonValue)>, key: &str, default: &str) -> (r: String)
    ensures
        r@ == text_or(view_member(entries_view(entries@), key@), default@),
{
    match get_entry(entries, key) {
        Some(JsonValue::String(t)) => copy_string(t),
        _ => lit(default),
    }
}

/// The members of an object view, if it is one.
pub open spec fn object_of(v: Option<JsonView>) -> Option<Seq<(Seq<char>, JsonView)>> {
    match v {
        Some(JsonView::Object(e)) => Some(e),
        _ => None,
    }
}

/// The text part type for a role: `output_text` for the assistant,
/// `input_text` for anyone else.
pub open spec fn text_type_for_role(role: Seq<char>) -> Seq<char> {
    if eq_ignore_case(role, "assistant"@) {
        "output_text"@
    } else {
        "input_text"@
    }
}

/// The text part type for a role.
pub fn response_text_type_for_role(role: &str) -> (r: String)
    ensures
        r@ == text_type_for_role(role@),
{
    if eq_ignore_case_exec(&chars_of(role), &chars_of("assistant")) {
        lit("output_text")
    } else {
        lit("input_text")
    }
}

/// A text part of a role's message.
pub open spec fn text_part(role: Seq<char>, text: Seq<char>) -> JsonView {
    JsonView::Object(seq![("text"@, JsonView::Str(text)), ("type"@, JsonView::Str(text_type_for_role(role)))])
}

fn two_text_object(k1: &str, v1: String, k2: &str, v2: String) -> (r: JsonValue)
    ensures
        json_view(r) == JsonView::Object(seq![(k1@, JsonView::Str(v1@)), (k2@, JsonView::Str(v2@))]),
{
    let mut o: Vec<(String, JsonValue)> = Vec::new();
    push_entry(&mut o, k1, JsonValue::String(v1));
    push_entry(&mut o, k2, JsonValue::String(v2));
    proof {
        assert(entries_view(o@) =~= seq![(k1@, JsonView::Str(v1@)), (k2@, JsonView::Str(v2@))]);
    }
    JsonValue::Object(o)
}

/// A Chat content part as a Responses content part: text (bare, or typed
/// `text` or untyped) for any role; images and files only from the user;
/// anything else is dropped.
pub open spec fn content_part(part: JsonView, role: Seq<char>) -> Option<JsonView> {
    match part {
        JsonView::Str(t) => Some(text_part(role, t)),
        JsonView::Object(e) => {
            let ty = text_or(view_member(e, "type"@), Seq::empty());
            if ty == Seq::<char>::empty() || ty == "text"@ {
                Some(text_part(role, text_or(view_member(e, "text"@), Seq::empty())))
            } else if ty == "image_url"@ {
                if !eq_ignore_case(role, "user"@) {
                    None
                } else {
                    match object_of(view_member(e, "image_url"@)) {
                        Some(ie) => match view_text(view_member(ie, "url"@)) {
                            Some(u) => Some(
                                JsonView::Object(seq![("image_url"@, JsonView::Str(u)), ("type"@, JsonView::Str("input_image"@))]),
                            ),
                            None => None,
                        },
                        None => None,
                    }
                }
            } else if ty == "file"@ {
                if !eq_ignore_case(role, "user"@) {
                    None
                } else {
                    let file = object_of(view_member(e, "file"@));
                    let data = match file {
                        Some(fe) => text_or(view_member(fe, "file_data"@), Seq::empty()),
                        None => Seq::empty(),
                    };
                    let name = match file {
                        Some(fe) => text_or(view_member(fe, "filename"@), Seq::empty()),
                        None => Seq::empty(),
                    };
                    if data.len() == 0 {
                        None
                    } else {
                        let base = seq![("type"@, JsonView::Str("input_file"@)), ("file_data"@, JsonView::Str(data))];
                        Some(
                            JsonView::Object(
                                if name.len() > 0 {
                                    base.push(("filename"@, JsonView::Str(name)))
                                } else {
                                    base
                                },
                            ),
                        )
                    }
                }
            } else {
                None
            }
        },
        _ => None,
    }
}

/// A Chat content part as a Responses content part, if it has one.
pub fn normalize_chat_content_part(part: &JsonValue, role: &str) -> (r: Option<JsonValue>)
    ensures
        match content_part(json_view(*part), role@) {
            Some(v) => r matches Some(x) && json_view(x) == v,
            None => r is None,
        },
{
    match part {
        JsonValue::String(text) => {
            Some(two_text_object("text", copy_string(text), "type", response_text_type_for_role(role)))
        },
        JsonValue::Object(e) => {
            let ty = text_or_exec(e, "type", "");
            proof {
                reveal_strlit("");
                assert(""@ =~= Seq::<char>::empty());
            }
            let tyv = chars_of(ty.as_str());
            proof {
                if tyv@.len() == 0 {
                    assert(ty@ =~= Seq::<char>::empty());
                }
            }
            if tyv.len() == 0 || str_eq(ty.as_str(), "text") {
                let text = text_or_exec(e, "text", "");
                return Some(two_text_object("text", text, "type", response_text_type_for_role(role)));
            }
            if str_eq(ty.as_str(), "image_url") {
                if !eq_ignore_case_exec(&chars_of(role), &chars_of("user")) {
                    return None;
                }
                return match get_entry(e, "image_url") {
                    Some(JsonValue::Object(ie)) => match get_entry(ie, "url") {
                        Some(JsonValue::String(u)) => Some(
                            two_text_object("image_url", copy_string(u), "type", lit("input_image")),
                        ),
                        _ => None,
                    },
                    _ => None,
                };
            }
            if str_eq(ty.as_str(), "file") {
                if !eq_ignore_case_exec(&chars_of(role), &chars_of("user")) {
                    return None;
                }
                let (data, name) = match get_entry(e, "file") {
                    Some(JsonValue::Object(fe)) => (text_or_exec(fe, "file_data", ""), text_or_exec(fe, "filename", "")),
                    _ => (String::new(), String::new()),
                };
                if chars_of(data.as_str()).len() == 0 {
                    return None;
                }
                let has_name = chars_of(name.as_str()).len() > 0;
                let mut next: Vec<(String, JsonValue)> = Vec::new();
                push_entry(&mut next, "type", JsonValue::String(lit("input_file")));
                push_entry(&mut next, "file_data", JsonValue::String(data));
                let ghost base = entries_view(next@);
                if has_name {
                    push_entry(&mut next, "filename", JsonValue::String(name));
                }
                proof {
                    assert(base =~= seq![("type"@, JsonView::Str("input_file"@)), ("file_data"@, JsonView::Str(data@))]);
                }
                return Some(JsonValue::Object(next));
            }
            None
        },
        _ => None,
    }
}

/// The Responses parts of a Chat message's content.
pub open spec fn content_parts(content: JsonView, role: Seq<char>) -> Seq<JsonView> {
    match content {
        JsonView::Array(parts) => kept_parts(parts, role),
        other => match content_part(other, role) {
            Some(p) => seq![p],
            None => Seq::empty(),
        },
    }
}

/// The parts of an array that have a Responses form.
pub open spec fn kept_parts(parts: Seq<JsonView>, role: Seq<char>) -> Seq<JsonView>
    decreases parts.len(),
{
    if parts.len() == 0 {
        Seq::empty()
    } else {
        let before = kept_parts(parts.drop_last(), role);
        match content_part(parts.last(), role) {
            Some(p) => before.push(p),
            None => before,
        }
    }
}

/// The Responses parts of a Chat message's content.
pub fn normalize_chat_content_parts(content: &JsonValue, role: &str) -> (r: Vec<JsonValue>)
    ensures
        items_view(r@) == content_parts(json_view(*content), role@),
{
    let mut out: Vec<JsonValue> = Vec::new();
    match content {
        JsonValue::Array(parts) => {
            proof {
                lemma_items_view(parts@);
            }
            let mut i: usize = 0;
            while i < parts.len()
                invariant
                    i <= parts@.len(),
                    items_view(parts@).len() == parts@.len(),
                    forall|j: int| 0 <= j < parts@.len() ==> #[trigger] items_view(parts@)[j] == json_view(parts@[j]),
                    items_view(out@) == kept_parts(items_view(parts@).take(i as int), role@),
                decreases parts@.len() - i,
            {
                proof {
                    assert(items_view(parts@).take(i as int + 1).drop_last() =~= items_view(parts@).take(i as int));
                }
                match normalize_chat_content_part(&parts[i], role) {
                    Some(p) => push_item(&mut out, p),
                    None => {},
                }
                i = i + 1;
            }
            proof {
                assert(items_view(parts@).take(parts@.len() as int) =~= items_view(parts@));
            }
        },
        other => {
            match normalize_chat_content_part(other, role) {
                Some(p) => {
                    push_item(&mut out, p);
                    proof {
                        assert(items_view(out@) =~= seq![items_view(out@).last()]);
                    }
                },
                None => {},
            }
        },
    }
    out
}

/// A non-blank, trimmed text, if any.
pub open spec fn non_blank(t: Option<Seq<char>>) -> Option<Seq<char>> {
    match t {
        Some(x) if trim(x).len() > 0 => Some(trim(x)),
        _ => None,
    }
}

fn non_blank_exec(v: Option<&JsonValue>) -> (r: Option<String>)
    ensures
        r matches Some(s) ==> non_blank(view_text(
            match v {
                Some(x) => Some(json_view(*x)),
                None => None,
            },
        )) == Some(s@),
        r is None ==> non_blank(view_text(
            match v {
                Some(x) => Some(json_view(*x)),
                None => None,
            },
        )) is None,
{
    match v {
        Some(JsonValue::String(t)) => {
            let tt = trim_str(t.as_str());
            if chars_of(tt.as_str()).len() > 0 {
                Some(tt)
            } else {
                None
            }
        },
        _ => None,
    }
}

/// An assistant's tool call as a Responses `function_call` item: only
/// function calls with a non-blank name; the name goes upstream under its
/// upstream name; arguments default to `{}`; the call id is `id`, else
/// `call_id`, else empty.
pub open spec fn tool_call_item(tc: JsonView, pairs: Seq<(Seq<char>, Seq<char>)>) -> Option<JsonView> {
    match tc {
        JsonView::Object(e) => {
            let ty = text_or(view_member(e, "type"@), "function"@);
            if ty != "function"@ {
                None
            } else {
                let function = object_of(view_member(e, "function"@));
                let name = match function {
                    Some(fe) => non_blank(view_text(view_member(fe, "name"@))),
                    None => None,
                };
                match name {
                    None => None,
                    Some(n) => {
                        let arguments = match function {
                            Some(fe) => text_or(view_member(fe, "arguments"@), "{}"@),
                            None => "{}"@,
                        };
                        let id_value = match view_member(e, "id"@) {
                            Some(x) => Some(x),
                            None => view_member(e, "call_id"@),
                        };
                        Some(
                            JsonView::Object(
                                seq![
                                    ("arguments"@, JsonView::Str(arguments)),
                                    ("call_id"@, JsonView::Str(text_or(id_value, Seq::empty()))),
                                    ("name"@, JsonView::Str(mapped_tool_name(pairs, n))),
                                    ("type"@, JsonView::Str("function_call"@)),
                                ],
                            ),
                        )
                    },
                }
            }
        },
        _ => None,
    }
}

/// An assistant's tool call as a Responses item, if it is one.
pub fn normalize_chat_tool_call(tool_call: &JsonValue, map: &ToolNameMap) -> (r: Option<JsonValue>)
    ensures
        match tool_call_item(json_view(*tool_call), map.view()) {
            Some(v) => r matches Some(x) && json_view(x) == v,
            None => r is None,
        },
{
    let e = match tool_call {
        JsonValue::Object(e) => e,
        _ => return None,
    };
    let ty = text_or_exec(e, "type", "function");
    if !str_eq(ty.as_str(), "function") {
        return None;
    }
    let (name, arguments) = match get_entry(e, "function") {
        Some(JsonValue::Object(fe)) => (non_blank_exec(get_entry(fe, "name")), text_or_exec(fe, "arguments", "{}")),
        _ => (None, lit("{}")),
    };
    let name = match name {
        Some(n) => n,
        None => return None,
    };
    let call_id = match get_entry(e, "id") {
        Some(JsonValue::String(t)) => copy_string(t),
        Some(_) => String::new(),
        None => text_or_exec(e, "call_id", ""),
    };
    proof {
        reveal_strlit("");
        assert(""@ =~= Seq::<char>::empty());
    }
    let mapped = map_tool_name(name.as_str(), map);
    let mut item: Vec<(String, JsonValue)> = Vec::new();
    push_entry(&mut item, "arguments", JsonValue::String(arguments));
    push_entry(&mut item, "call_id", JsonValue::String(call_id));
    push_entry(&mut item, "name", JsonValue::String(mapped));
    push_entry(&mut item, "type", JsonValue::String(lit("function_call")));
    proof {
        let v = tool_call_item(json_view(*tool_call), map.view()).unwrap();
        assert(entries_view(item@) =~= v->Object_0);
    }
    Some(JsonValue::Object(item))
}

/// The Responses items of an assistant's tool calls.
pub open spec fn tool_call_items(tool_calls: JsonView, pairs: Seq<(Seq<char>, Seq<char>)>) -> Seq<JsonView> {
    match tool_calls {
        JsonView::Array(items) => kept_calls(items, pairs),
        _ => Seq::empty(),
    }
}

/// The tool calls of a list that have a Responses form.
pub open spec fn kept_calls(items: Seq<JsonView>, pairs: Seq<(Seq<char>, Seq<char>)>) -> Seq<JsonView>
    decreases items.len(),
{
    if items.len() == 0 {
        Seq::empty()
    } else {
        let before = kept_calls(items.drop_last(), pairs);
        match tool_call_item(items.last(), pairs) {
            Some(p) => before.push(p),
            None => before,
        }
    }
}

/// The Responses items of an assistant's tool calls.
pub fn normalize_chat_tool_calls(tool_calls: &JsonValue, map: &ToolNameMap) -> (r: Vec<JsonValue>)
    ensures
        items_view(r@) == tool_call_items(json_view(*tool_calls), map.view()),
{
    let mut out: Vec<JsonValue> = Vec::new();
    match tool_calls {
        JsonValue::Array(items) => {
            proof {
                lemma_items_view(items@);
            }
            let mut i: usize = 0;
            while i < items.len()
                invariant
                    i <= items@.len(),
                    items_view(items@).len() == items@.len(),
                    forall|j: int| 0 <= j < items@.len() ==> #[trigger] items_view(items@)[j] == json_view(items@[j]),
                    items_view(out@) == kept_calls(items_view(items@).take(i as int), map.view()),
                decreases items@.len() - i,
            {
                proof {
                    assert(items_view(items@).take(i as int + 1).drop_last() =~= items_view(items@).take(i as int));
                }
                match normalize_chat_tool_call(&items[i], map) {
                    Some(p) => push_item(&mut out, p),
                    None => {},
                }
                i = i + 1;
            }
            proof {
                assert(items_view(items@).take(items@.len() as int) =~= items_view(items@));
            }
        },
        _ => {},
    }
    out
}

/// The text of a message's content: the text itself, or the non-blank
/// `text` (else `content`) of each part.
pub open spec fn message_text(content: JsonView) -> Seq<char> {
    match content {
        JsonView::Str(raw) => raw,
        JsonView::Array(parts) => parts_text(parts),
        _ => Seq::empty(),
    }
}

/// The texts of content parts.
pub open spec fn parts_text(parts: Seq<JsonView>) -> Seq<char>
    decreases parts.len(),
{
    if parts.len() == 0 {
        Seq::empty()
    } else {
        let before = parts_text(parts.drop_last());
        let p = parts.last();
        match view_text(view_field(p, "text"@)) {
            Some(t) => append_non_empty(before, t),
            None => match view_text(view_field(p, "content"@)) {
                Some(t) => append_non_empty(before, t),
                None => before,
            },
        }
    }
}

fn member_text(v: &JsonValue, key: &str) -> (r: Option<String>)
    ensures
        r matches Some(s) ==> view_text(view_field(json_view(*v), key@)) == Some(s@),
        r is None ==> view_text(view_field(json_view(*v), key@)) is None,
{
    match v {
        JsonValue::Object(e) => match get_entry(e, key) {
            Some(JsonValue::String(t)) => Some(copy_string(t)),
            _ => None,
        },
        _ => None,
    }
}

/// The text of a message's content.
pub fn extract_message_content_text(content: &JsonValue) -> (r: String)
    ensures
        r@ == message_text(json_view(*content)),
{
    match content {
        JsonValue::String(raw) => copy_string(raw),
        JsonValue::Array(parts) => {
            proof {
                lemma_items_view(parts@);
            }
            let mut text = String::new();
            let mut i: usize = 0;
            while i < parts.len()
                invariant
                    i <= parts@.len(),
                    items_view(parts@).len() == parts@.len(),
                    forall|j: int| 0 <= j < parts@.len() ==> #[trigger] items_view(parts@)[j] == json_view(parts@[j]),
                    text@ == parts_text(items_view(parts@).take(i as int)),
                decreases parts@.len() - i,
            {
                proof {
                    assert(items_view(parts@).take(i as int + 1).drop_last() =~= items_view(parts@).take(i as int));
                }
                let found = match member_text(&parts[i], "text") {
                    Some(t) => Some(t),
                    None => member_text(&parts[i], "content"),
                };
                match found {
                    Some(t) => {
                        if crate::text::trim_vec(&chars_of(t.as_str())).len() > 0 {
                            text = concat_str(text.as_str(), t.as_str());
                        }
                    },
                    None => {},
                }
                i = i + 1;
            }
            proof {
                assert(items_view(parts@).take(parts@.len() as int) =~= items_view(parts@));
            }
            text
        },
        _ => String::new(),
    }
}

/// The Responses input items of one Chat message: a tool result becomes a
/// `function_call_output`; other messages become a message item with their
/// parts (none when no part is left; a system message speaks as
/// `developer`), then, for the assistant, its tool calls.
pub open spec fn message_items(e: Seq<(Seq<char>, JsonView)>, pairs: Seq<(Seq<char>, Seq<char>)>) -> Seq<JsonView> {
    let role = text_or(view_member(e, "role"@), "user"@);
    if eq_ignore_case(role, "tool"@) {
        let output = match view_member(e, "content"@) {
            Some(c) => message_text(c),
            None => Seq::empty(),
        };
        seq![JsonView::Object(seq![
            ("call_id"@, JsonView::Str(text_or(view_member(e, "tool_call_id"@), Seq::empty()))),
            ("output"@, JsonView::Str(output)),
            ("type"@, JsonView::Str("function_call_output"@)),
        ])]
    } else {
        let parts = match view_member(e, "content"@) {
            Some(c) => content_parts(c, role),
            None => Seq::empty(),
        };
        let mapped_role = if eq_ignore_case(role, "system"@) {
            "developer"@
        } else {
            role
        };
        let items = if parts.len() > 0 {
            seq![JsonView::Object(seq![
                ("content"@, JsonView::Array(parts)),
                ("role"@, JsonView::Str(mapped_role)),
                ("type"@, JsonView::Str("message"@)),
            ])]
        } else {
            Seq::empty()
        };
        if eq_ignore_case(role, "assistant"@) {
            match view_member(e, "tool_calls"@) {
                Some(tc) => items + tool_call_items(tc, pairs),
                None => items,
            }
        } else {
            items
        }
    }
}

/// How a Chat message with text content becomes Responses input: a tool
/// message becomes the output of the call it answers, with the text as
/// output; a system message becomes a developer message; a user message
/// stays a user message; the text becomes an `input_text` part, and an
/// `output_text` part for the assistant.
pub proof fn lemma_text_message_items(
    e: Seq<(Seq<char>, JsonView)>,
    pairs: Seq<(Seq<char>, Seq<char>)>,
    role: Seq<char>,
    t: Seq<char>,
)
    requires
        view_member(e, "role"@) == Some(JsonView::Str(role)),
        view_member(e, "content"@) == Some(JsonView::Str(t)),
    ensures
        eq_ignore_case(role, "tool"@) ==> message_items(e, pairs) == seq![
            JsonView::Object(
                seq![
                    ("call_id"@, JsonView::Str(text_or(view_member(e, "tool_call_id"@), Seq::empty()))),
                    ("output"@, JsonView::Str(t)),
                    ("type"@, JsonView::Str("function_call_output"@)),
                ],
            ),
        ],
        eq_ignore_case(role, "system"@) ==> message_items(e, pairs) == seq![
            JsonView::Object(
                seq![
                    (
                        "content"@,
                        JsonView::Array(
                            seq![JsonView::Object(seq![("text"@, JsonView::Str(t)), ("type"@, JsonView::Str("input_text"@))])],
                        ),
                    ),
                    ("role"@, JsonView::Str("developer"@)),
                    ("type"@, JsonView::Str("message"@)),
                ],
            ),
        ],
        role == "user"@ ==> message_items(e, pairs) == seq![
            JsonView::Object(
                seq![
                    (
                        "content"@,
                        JsonView::Array(
                            seq![JsonView::Object(seq![("text"@, JsonView::Str(t)), ("type"@, JsonView::Str("input_text"@))])],
                        ),
                    ),
                    ("role"@, JsonView::Str("user"@)),
                    ("type"@, JsonView::Str("message"@)),
                ],
            ),
        ],
        eq_ignore_case(role, "assistant"@) ==> content_parts(JsonView::Str(t), role) == seq![
            JsonView::Object(seq![("text"@, JsonView::Str(t)), ("type"@, JsonView::Str("output_text"@))]),
        ],
{
    reveal_strlit("tool");
    reveal_strlit("system");
    reveal_strlit("assistant");
    reveal_strlit("user");
    assert(lower("tool"@).len() == 4);
    assert(lower("system"@).len() == 6);
    assert(lower("assistant"@).len() == 9);
    assert(lower("user"@).len() == 4);
    if eq_ignore_case(role, "system"@) {
        assert(lower(role).len() == 6);
        assert(!eq_ignore_case(role, "tool"@));
        assert(!eq_ignore_case(role, "assistant"@));
    }
    if role == "user"@ {
        assert(lower(role).len() == 4);
        assert(!eq_ignore_case(role, "system"@));
        assert(!eq_ignore_case(role, "assistant"@));
        assert(lower("user"@)[0] != lower("tool"@)[0]) by {
            assert(lower("user"@)[0] == lower_char('u'));
            assert(lower("tool"@)[0] == lower_char('t'));
        }
        assert(!eq_ignore_case(role, "tool"@));
    }
}

/// Appends items to a vector.
fn append_items(out: &mut Vec<JsonValue>, more: Vec<JsonValue>)
    ensures
        items_view(final(out)@) == items_view(old(out)@) + items_view(more@),
{
    let ghost a = out@;
    let ghost b = more@;
    let mut more = more;
    out.append(&mut more);
    proof {
        lemma_items_view(a);
        lemma_items_view(b);
        lemma_items_view(out@);
        assert(out@ =~= a + b);
        assert forall|j: int| 0 <= j < out@.len() implies #[trigger] items_view(out@)[j] == (items_view(a) + items_view(b))[j] by {
            if j < a.len() {
                assert(out@[j] == a[j]);
            } else {
                assert(out@[j] == b[j - a.len()]);
            }
        }
        assert(items_view(out@) =~= items_view(a) + items_view(b));
    }
}

/// The Responses input items of one Chat message.
pub fn normalize_chat_message_for_responses(message_obj: &Vec<(String, JsonValue)>, map: &ToolNameMap) -> (r: Vec<
    JsonValue,
>)
    ensures
        items_view(r@) == message_items(entries_view(message_obj@), map.view()),
{
    let role = text_or_exec(message_obj, "role", "user");
    let mut items: Vec<JsonValue> = Vec::new();
    proof {
        reveal_strlit("");
        assert(""@ =~= Seq::<char>::empty());
    }
    if eq_ignore_case_exec(&chars_of(role.as_str()), &chars_of("tool")) {
        let output = match get_entry(message_obj, "content") {
            Some(c) => extract_message_content_text(c),
            None => String::new(),
        };
        let call_id = text_or_exec(message_obj, "tool_call_id", "");
        let mut o: Vec<(String, JsonValue)> = Vec::new();
        push_entry(&mut o, "call_id", JsonValue::String(call_id));
        push_entry(&mut o, "output", JsonValue::String(output));
        push_entry(&mut o, "type", JsonValue::String(lit("function_call_output")));
        let ghost ov = entries_view(o@);
        proof {
            assert(ov =~= seq![
                ("call_id"@, JsonView::Str(call_id@)),
                ("output"@, JsonView::Str(output@)),
                ("type"@, JsonView::Str("function_call_output"@)),
            ]);
            assert(items_view(items@) =~= Seq::<JsonView>::empty());
        }
        push_item(&mut items, JsonValue::Object(o));
        proof {
            assert(items_view(items@) =~= seq![JsonView::Object(ov)]);
        }
        return items;
    }
    let parts = match get_entry(message_obj, "content") {
        Some(c) => normalize_chat_content_parts(c, role.as_str()),
        None => Vec::new(),
    };
    proof {
        lemma_items_view(parts@);
    }
    let ghost pv = items_view(parts@);
    if parts.len() > 0 {
        let mapped_role = if eq_ignore_case_exec(&chars_of(role.as_str()), &chars_of("system")) {
            lit("developer")
        } else {
            copy_string(&role)
        };
        let ghost mrv = mapped_role@;
        let mut m: Vec<(String, JsonValue)> = Vec::new();
        push_entry(&mut m, "content", JsonValue::Array(parts));
        push_entry(&mut m, "role", JsonValue::String(mapped_role));
        push_entry(&mut m, "type", JsonValue::String(lit("message")));
        proof {
            assert(entries_view(m@) =~= seq![
                ("content"@, JsonView::Array(pv)),
                ("role"@, JsonView::Str(mrv)),
                ("type"@, JsonView::Str("message"@)),
            ]);
            assert(items_view(items@) =~= Seq::<JsonView>::empty());
        }
        push_item(&mut items, JsonValue::Object(m));
    }
    let ghost base = items_view(items@);
    proof {
        let role_v = text_or(view_member(entries_view(message_obj@), "role"@), "user"@);
        let mapped = if eq_ignore_case(role_v, "system"@) {
            "developer"@
        } else {
            role_v
        };
        if pv.len() > 0 {
            assert(base =~= seq![JsonView::Object(seq![
                ("content"@, JsonView::Array(pv)),
                ("role"@, JsonView::Str(mapped)),
                ("type"@, JsonView::Str("message"@)),
            ])]);
        } else {
            assert(base =~= Seq::<JsonView>::empty());
        }
    }
    if eq_ignore_case_exec(&chars_of(role.as_str()), &chars_of("assistant")) {
        match get_entry(message_obj, "tool_calls") {
            Some(tc) => {
                let calls = normalize_chat_tool_calls(tc, map);
                append_items(&mut items, calls);
            },
            None => {},
        }
    }
    items
}

/// A Chat `messages` value as Responses input: each object message gives
/// its items, anything else stays as it is; a value that is not an array is
/// kept whole.
pub open spec fn input_items(messages: JsonView, pairs: Seq<(Seq<char>, Seq<char>)>) -> JsonView {
    match messages {
        JsonView::Array(items) => JsonView::Array(messages_items(items, pairs)),
        other => other,
    }
}

/// The input items of a list of messages.
pub open spec fn messages_items(items: Seq<JsonView>, pairs: Seq<(Seq<char>, Seq<char>)>) -> Seq<JsonView>
    decreases items.len(),
{
    if items.len() == 0 {
        Seq::empty()
    } else {
        let before = messages_items(items.drop_last(), pairs);
        match items.last() {
            JsonView::Object(e) => before + message_items(e, pairs),
            other => before.push(other),
        }
    }
}

/// A Chat `messages` value as Responses input.
pub fn normalize_chat_messages_for_responses(messages: &JsonValue, map: &ToolNameMap) -> (r: JsonValue)
    ensures
        json_view(r) == input_items(json_view(*messages), map.view()),
{
    let items = match messages {
        JsonValue::Array(items) => items,
        _ => return clone_json(messages),
    };
    proof {
        lemma_items_view(items@);
    }
    let mut out: Vec<JsonValue> = Vec::new();
    let mut i: usize = 0;
    while i < items.len()
        invariant
            i <= items@.len(),
            items_view(items@).len() == items@.len(),
            forall|j: int| 0 <= j < items@.len() ==> #[trigger] items_view(items@)[j] == json_view(items@[j]),
            items_view(out@) == messages_items(items_view(items@).take(i as int), map.view()),
        decreases items@.len() - i,
    {
        proof {
            assert(items_view(items@).take(i as int + 1).drop_last() =~= items_view(items@).take(i as int));
        }
        match &items[i] {
            JsonValue::Object(e) => {
                let more = normalize_chat_message_for_responses(e, map);
                append_items(&mut out, more);
            },
            other => push_item(&mut out, clone_json(other)),
        }
        i = i + 1;
    }
    proof {
        assert(items_view(items@).take(items@.len() as int) =~= items_view(items@));
    }
    JsonValue::Array(out)
}

/// A Chat tool in the Responses shape: a non-function tool stays as it
/// is; a function tool with a non-blank name is flattened, under its
/// upstream name, with its description, parameters and boolean `strict`.
pub open spec fn tool_item(tool: JsonView, pairs: Seq<(Seq<char>, Seq<char>)>) -> Option<JsonView> {
    match tool {
        JsonView::Object(e) => {
            let ty = text_or(view_member(e, "type"@), "function"@);
            if ty != "function"@ {
                Some(JsonView::Object(e))
            } else {
                match object_of(view_member(e, "function"@)) {
                    None => None,
                    Some(fe) => match non_blank(view_text(view_member(fe, "name"@))) {
                        None => None,
                        Some(n) => {
                            let t0 = seq![
                                ("type"@, JsonView::Str("function"@)),
                                ("name"@, JsonView::Str(mapped_tool_name(pairs, n))),
                            ];
                            let t1 = match view_member(fe, "description"@) {
                                Some(d) => t0.push(("description"@, d)),
                                None => t0,
                            };
                            let t2 = match view_member(fe, "parameters"@) {
                                Some(p) => t1.push(("parameters"@, p)),
                                None => t1,
                            };
                            let t3 = match view_member(fe, "strict"@) {
                                Some(JsonView::Bool(b)) => t2.push(("strict"@, JsonView::Bool(b))),
                                _ => t2,
                            };
                            Some(JsonView::Object(t3))
                        },
                    },
                }
            }
        },
        _ => None,
    }
}

/// A Chat tool in the Responses shape, if it has one.
pub fn normalize_chat_tool(tool: &JsonValue, map: &ToolNameMap) -> (r: Option<JsonValue>)
    ensures
        match tool_item(json_view(*tool), map.view()) {
            Some(v) => r matches Some(x) && json_view(x) == v,
            None => r is None,
        },
{
    let e = match tool {
        JsonValue::Object(e) => e,
        _ => return None,
    };
    let ty = text_or_exec(e, "type", "function");
    if !str_eq(ty.as_str(), "function") {
        return Some(clone_json(tool));
    }
    let fe = match get_entry(e, "function") {
        Some(JsonValue::Object(fe)) => fe,
        _ => return None,
    };
    let name = match non_blank_exec(get_entry(fe, "name")) {
        Some(n) => n,
        None => return None,
    };
    let mut t: Vec<(String, JsonValue)> = Vec::new();
    push_entry(&mut t, "type", JsonValue::String(lit("function")));
    push_entry(&mut t, "name", JsonValue::String(map_tool_name(name.as_str(), map)));
    match get_entry(fe, "description") {
        Some(d) => push_entry(&mut t, "description", clone_json(d)),
        None => {},
    }
    match get_entry(fe, "parameters") {
        Some(p) => push_entry(&mut t, "parameters", clone_json(p)),
        None => {},
    }
    match get_entry(fe, "strict") {
        Some(JsonValue::Bool(b)) => push_entry(&mut t, "strict", JsonValue::Bool(*b)),
        _ => {},
    }
    proof {
        let v = tool_item(json_view(*tool), map.view()).unwrap();
        assert(entries_view(t@) =~= v->Object_0);
    }
    Some(JsonValue::Object(t))
}

/// The Chat tools in the Responses shape; not an array gives none.
pub open spec fn tool_items(tools: JsonView, pairs: Seq<(Seq<char>, Seq<char>)>) -> JsonView {
    JsonView::Array(
        match tools {
            JsonView::Array(items) => kept_tools(items, pairs),
            _ => Seq::empty(),
        },
    )
}

/// The tools of a list that have a Responses form.
pub open spec fn kept_tools(items: Seq<JsonView>, pairs: Seq<(Seq<char>, Seq<char>)>) -> Seq<JsonView>
    decreases items.len(),
{
    if items.len() == 0 {
        Seq::empty()
    } else {
        let before = kept_tools(items.drop_last(), pairs);
        match tool_item(items.last(), pairs) {
            Some(p) => before.push(p),
            None => before,
        }
    }
}

/// The Chat tools in the Responses shape.
pub fn normalize_chat_tools(tools: &JsonValue, map: &ToolNameMap) -> (r: JsonValue)
    ensures
        json_view(r) == tool_items(json_view(*tools), map.view()),
{
    let mut out: Vec<JsonValue> = Vec::new();
    match tools {
        JsonValue::Array(items) => {
            proof {
                lemma_items_view(items@);
            }
            let mut i: usize = 0;
            while i < items.len()
                invariant
                    i <= items@.len(),
                    items_view(items@).len() == items@.len(),
                    forall|j: int| 0 <= j < items@.len() ==> #[trigger] items_view(items@)[j] == json_view(items@[j]),
                    items_view(out@) == kept_tools(items_view(items@).take(i as int), map.view()),
                decreases items@.len() - i,
            {
                proof {
                    assert(items_view(items@).take(i as int + 1).drop_last() =~= items_view(items@).take(i as int));
                }
                match normalize_chat_tool(&items[i], map) {
                    Some(p) => push_item(&mut out, p),
                    None => {},
                }
                i = i + 1;
            }
            proof {
                assert(items_view(items@).take(items@.len() as int) =~= items_view(items@));
            }
        },
        _ => {},
    }
    JsonValue::Array(out)
}

/// A Chat tool choice in the Responses shape: a mode stays; a choice of
/// another type than `function` stays; a function choice names its tool
/// by the upstream name, when it names one.
pub open spec fn tool_choice_item(choice: JsonView, pairs: Seq<(Seq<char>, Seq<char>)>) -> Option<JsonView> {
    match choice {
        JsonView::Str(mode) => Some(JsonView::Str(mode)),
        JsonView::Object(e) => {
            let ty = text_or(view_member(e, "type"@), "function"@);
            if ty != "function"@ {
                Some(JsonView::Object(e))
            } else {
                let name = match object_of(view_member(e, "function"@)) {
                    Some(fe) => non_blank(view_text(view_member(fe, "name"@))),
                    None => None,
                };
                match name {
                    Some(n) => Some(
                        JsonView::Object(seq![
                            ("name"@, JsonView::Str(mapped_tool_name(pairs, n))),
                            ("type"@, JsonView::Str("function"@)),
                        ]),
                    ),
                    None => None,
                }
            }
        },
        _ => None,
    }
}

/// A Chat tool choice in the Responses shape, if it has one.
pub fn normalize_chat_tool_choice(tool_choice: &JsonValue, map: &ToolNameMap) -> (r: Option<JsonValue>)
    ensures
        match tool_choice_item(json_view(*tool_choice), map.view()) {
            Some(v) => r matches Some(x) && json_view(x) == v,
            None => r is None,
        },
{
    match tool_choice {
        JsonValue::String(mode) => Some(JsonValue::String(copy_string(mode))),
        JsonValue::Object(e) => {
            let ty = text_or_exec(e, "type", "function");
            if !str_eq(ty.as_str(), "function") {
                return Some(clone_json(tool_choice));
            }
            let name = match get_entry(e, "function") {
                Some(JsonValue::Object(fe)) => non_blank_exec(get_entry(fe, "name")),
                _ => None,
            };
            match name {
                Some(n) => Some(two_text_object("name", map_tool_name(n.as_str(), map), "type", lit("function"))),
                None => None,
            }
        },
        _ => None,
    }
}

/// The `text` options of the Responses request: the output format (plain
/// text, or a JSON schema with its name, strictness and schema), then the
/// verbosity.
pub open spec fn text_options(e: Seq<(Seq<char>, JsonView)>) -> Seq<(Seq<char>, JsonView)> {
    let format = match object_of(view_member(e, "response_format"@)) {
        Some(rf) => {
            let ty = text_or(view_member(rf, "type"@), Seq::empty());
            if ty == "text"@ {
                seq![("format"@, JsonView::Object(seq![("type"@, JsonView::Str("text"@))]))]
            } else if ty == "json_schema"@ {
                match object_of(view_member(rf, "json_schema"@)) {
                    Some(js) => {
                        let f0 = seq![("type"@, JsonView::Str("json_schema"@))];
                        let f1 = match view_member(js, "name"@) {
                            Some(x) => f0.push(("name"@, x)),
                            None => f0,
                        };
                        let f2 = match view_member(js, "strict"@) {
                            Some(x) => f1.push(("strict"@, x)),
                            None => f1,
                        };
                        let f3 = match view_member(js, "schema"@) {
                            Some(x) => f2.push(("schema"@, x)),
                            None => f2,
                        };
                        seq![("format"@, JsonView::Object(f3))]
                    },
                    None => Seq::empty(),
                }
            } else {
                Seq::empty()
            }
        },
        None => Seq::empty(),
    };
    match object_of(view_member(e, "text"@)) {
        Some(t) => match view_member(t, "verbosity"@) {
            Some(v) => format.push(("verbosity"@, v)),
            None => format,
        },
        None => format,
    }
}

fn text_options_exec(e: &Vec<(String, JsonValue)>) -> (r: Vec<(String, JsonValue)>)
    ensures
        entries_view(r@) == text_options(entries_view(e@)),
{
    let mut text: Vec<(String, JsonValue)> = Vec::new();
    proof {
        reveal_strlit("");
        assert(""@ =~= Seq::<char>::empty());
    }
    match get_entry(e, "response_format") {
        Some(JsonValue::Object(rf)) => {
            let ty = text_or_exec(rf, "type", "");
            if str_eq(ty.as_str(), "text") {
                let mut f: Vec<(String, JsonValue)> = Vec::new();
                push_entry(&mut f, "type", JsonValue::String(lit("text")));
                proof {
                    assert(entries_view(f@) =~= seq![("type"@, JsonView::Str("text"@))]);
                }
                push_entry(&mut text, "format", JsonValue::Object(f));
            } else if str_eq(ty.as_str(), "json_schema") {
                match get_entry(rf, "json_schema") {
                    Some(JsonValue::Object(js)) => {
                        let mut f: Vec<(String, JsonValue)> = Vec::new();
                        push_entry(&mut f, "type", JsonValue::String(lit("json_schema")));
                        proof {
                            assert(entries_view(f@) =~= seq![("type"@, JsonView::Str("json_schema"@))]);
                        }
                        match get_entry(js, "name") {
                            Some(x) => push_entry(&mut f, "name", clone_json(x)),
                            None => {},
                        }
                        match get_entry(js, "strict") {
                            Some(x) => push_entry(&mut f, "strict", clone_json(x)),
                            None => {},
                        }
                        match get_entry(js, "schema") {
                            Some(x) => push_entry(&mut f, "schema", clone_json(x)),
                            None => {},
                        }
                        push_entry(&mut text, "format", JsonValue::Object(f));
                    },
                    _ => {},
                }
            }
        },
        _ => {},
    }
    proof {
        assert(entries_view(text@).len() <= 1);
    }
    match get_entry(e, "text") {
        Some(JsonValue::Object(t)) => match get_entry(t, "verbosity") {
            Some(v) => push_entry(&mut text, "verbosity", clone_json(v)),
            None => {},
        },
        _ => {},
    }
    proof {
        assert(entries_view(text@) =~= text_options(entries_view(e@)));
    }
    text
}

/// A Chat Completions request as a Responses request: the body, whether
/// the client asked for a stream, and the model asked for (resolved to its
/// catalog entry).
pub open spec fn responses_body(body: JsonValue) -> Result<(JsonView, bool, Seq<char>), Seq<char>> {
    match json_view(body) {
        JsonView::Object(e) => match non_blank(view_text(view_member(e, "model"@))) {
            None => Err("chat/completions 请求缺少 model"@),
            Some(m0) => {
                let model = resolve_alias(m0, supported_catalog(Seq::empty()));
                match view_member(e, "messages"@) {
                    None => Err("chat/completions 请求缺少 messages"@),
                    Some(msgs) => {
                        let pairs = name_pairs(body_tool_names(body));
                        let effort = match view_member(e, "reasoning_effort"@) {
                            Some(x) => x,
                            None => JsonView::Str("medium"@),
                        };
                        let o0 = seq![
                            ("instructions"@, JsonView::Str(Seq::empty())),
                            ("stream"@, JsonView::Bool(true)),
                            ("store"@, JsonView::Bool(false)),
                            ("model"@, JsonView::Str(model)),
                            ("input"@, input_items(msgs, pairs)),
                            ("parallel_tool_calls"@, JsonView::Bool(true)),
                            ("reasoning"@, JsonView::Object(seq![("effort"@, effort), ("summary"@, JsonView::Str("auto"@))])),
                            ("include"@, JsonView::Array(seq![JsonView::Str("reasoning.encrypted_content"@)])),
                        ];
                        let o1 = match view_member(e, "tools"@) {
                            Some(t) => o0.push(("tools"@, tool_items(t, pairs))),
                            None => o0,
                        };
                        let o2 = match view_member(e, "tool_choice"@) {
                            Some(c) => match tool_choice_item(c, pairs) {
                                Some(x) => o1.push(("tool_choice"@, x)),
                                None => o1,
                            },
                            None => o1,
                        };
                        let text = text_options(e);
                        let o3 = if text.len() > 0 {
                            o2.push(("text"@, JsonView::Object(text)))
                        } else {
                            o2
                        };
                        Ok((JsonView::Object(o3), flag_of(e, "stream"@), model))
                    },
                }
            },
        },
        _ => Err("chat/completions 请求体必须是 JSON 对象"@),
    }
}

/// The members of the output format for a JSON schema, by key, as the
/// request's `json_schema` gives them.
proof fn lemma_schema_format_members(js: Seq<(Seq<char>, JsonView)>, f3: Seq<(Seq<char>, JsonView)>)
    requires
        f3 == ({
            let f0 = seq![("type"@, JsonView::Str("json_schema"@))];
            let f1 = match view_member(js, "name"@) {
                Some(x) => f0.push(("name"@, x)),
                None => f0,
            };
            let f2 = match view_member(js, "strict"@) {
                Some(x) => f1.push(("strict"@, x)),
                None => f1,
            };
            match view_member(js, "schema"@) {
                Some(x) => f2.push(("schema"@, x)),
                None => f2,
            }
        }),
    ensures
        view_member(f3, "type"@) == Some(JsonView::Str("json_schema"@)),
        view_member(f3, "name"@) == view_member(js, "name"@),
        view_member(f3, "strict"@) == view_member(js, "strict"@),
        view_member(f3, "schema"@) == view_member(js, "schema"@),
{
    reveal_strlit("type");
    reveal_strlit("name");
    reveal_strlit("strict");
    reveal_strlit("schema");
    assert("type"@[0] != "name"@[0]);
    assert("type"@.len() != "strict"@.len());
    assert("type"@.len() != "schema"@.len());
    assert("name"@.len() != "strict"@.len());
    assert("name"@.len() != "schema"@.len());
    assert("strict"@[1] != "schema"@[1]);
    lemma_view_member_at(f3, "type"@, 0);
    let n1 = if view_member(js, "name"@) is Some { 1int } else { 0int };
    let n2 = if view_member(js, "strict"@) is Some { 1int } else { 0int };
    if view_member(js, "name"@) is Some {
        lemma_view_member_at(f3, "name"@, 1);
    } else {
        lemma_view_member_absent(f3, "name"@);
    }
    if view_member(js, "strict"@) is Some {
        lemma_view_member_at(f3, "strict"@, 1 + n1);
    } else {
        lemma_view_member_absent(f3, "strict"@);
    }
    if view_member(js, "schema"@) is Some {
        lemma_view_member_at(f3, "schema"@, 1 + n1 + n2);
    } else {
        lemma_view_member_absent(f3, "schema"@);
    }
}

/// Structured output carries over: when a Chat request asks for a
/// `json_schema` response format, the Responses request's `text.format` is
/// of type `json_schema` and has the request's schema name, strictness and
/// schema, each exactly when the request gives it.
pub proof fn lemma_json_schema_format(
    body: JsonValue,
    e: Seq<(Seq<char>, JsonView)>,
    rf: Seq<(Seq<char>, JsonView)>,
    js: Seq<(Seq<char>, JsonView)>,
)
    requires
        json_view(body) == JsonView::Object(e),
        responses_body(body) is Ok,
        view_member(e, "response_format"@) == Some(JsonView::Object(rf)),
        view_member(rf, "type"@) == Some(JsonView::Str("json_schema"@)),
        view_member(rf, "json_schema"@) == Some(JsonView::Object(js)),
    ensures
        ({
            let out = responses_body(body)->Ok_0.0;
            let text = view_field(out, "text"@);
            &&& text is Some
            &&& view_field(text->0, "format"@) is Some
            &&& ({
                let format = view_field(text->0, "format"@)->0;
                &&& view_field(format, "type"@) == Some(JsonView::Str("json_schema"@))
                &&& view_field(format, "name"@) == view_member(js, "name"@)
                &&& view_field(format, "strict"@) == view_member(js, "strict"@)
                &&& view_field(format, "schema"@) == view_member(js, "schema"@)
            })
        }),
{
    reveal_strlit("text");
    reveal_strlit("json_schema");
    reveal_strlit("format");
    reveal_strlit("verbosity");
    reveal_strlit("instructions");
    reveal_strlit("stream");
    reveal_strlit("store");
    reveal_strlit("model");
    reveal_strlit("input");
    reveal_strlit("parallel_tool_calls");
    reveal_strlit("reasoning");
    reveal_strlit("include");
    reveal_strlit("tools");
    reveal_strlit("tool_choice");
    assert("json_schema"@.len() != "text"@.len());
    let text = text_options(e);
    let f0 = seq![("type"@, JsonView::Str("json_schema"@))];
    let f1 = match view_member(js, "name"@) {
        Some(x) => f0.push(("name"@, x)),
        None => f0,
    };
    let f2 = match view_member(js, "strict"@) {
        Some(x) => f1.push(("strict"@, x)),
        None => f1,
    };
    let f3 = match view_member(js, "schema"@) {
        Some(x) => f2.push(("schema"@, x)),
        None => f2,
    };
    assert(text[0] == ("format"@, JsonView::Object(f3)));
    lemma_view_member_at(text, "format"@, 0);
    lemma_schema_format_members(js, f3);
    let o = responses_body(body)->Ok_0.0->Object_0;
    assert(text.len() > 0);
    assert(o.last() == ("text"@, JsonView::Object(text)));
    assert forall|j: int| 0 <= j < o.len() - 1 implies #[trigger] o[j].0 != "text"@ by {
        assert(o[j].0.len() != 4);
    }
    lemma_view_member_at(o, "text"@, o.len() - 1);
}

/// The reasoning effort a Chat request asks for, medium when it asks for none.
pub open spec fn asked_effort(e: Seq<(Seq<char>, JsonView)>) -> JsonView {
    match view_member(e, "reasoning_effort"@) {
        Some(x) => x,
        None => JsonView::Str("medium"@),
    }
}

/// What every Responses request built from a Chat request holds: the
/// asked model, streaming on, nothing stored, empty instructions, parallel
/// tool calls, and reasoning at the asked effort (medium when none is asked)
/// with an automatic summary. A body that is not an object, or that lacks a
/// model or messages, is refused.
pub proof fn lemma_responses_body_members(body: JsonValue, e: Seq<(Seq<char>, JsonView)>)
    requires
        json_view(body) == JsonView::Object(e),
    ensures
        view_member(e, "messages"@) is None ==> responses_body(body) is Err,
        non_blank(view_text(view_member(e, "model"@))) is None ==> responses_body(body) is Err,
        responses_body(body) is Ok ==> ({
            let out = responses_body(body)->Ok_0.0;
            let stream = responses_body(body)->Ok_0.1;
            let model = responses_body(body)->Ok_0.2;
            &&& stream == flag_of(e, "stream"@)
            &&& view_field(out, "model"@) == Some(JsonView::Str(model))
            &&& view_field(out, "stream"@) == Some(JsonView::Bool(true))
            &&& view_field(out, "store"@) == Some(JsonView::Bool(false))
            &&& view_field(out, "instructions"@) == Some(JsonView::Str(Seq::empty()))
            &&& view_field(out, "parallel_tool_calls"@) == Some(JsonView::Bool(true))
            &&& view_field(out, "reasoning"@) == Some(
                JsonView::Object(
                    seq![
                        ("effort"@, asked_effort(e)),
                        ("summary"@, JsonView::Str("auto"@)),
                    ],
                ),
            )
        }),
{
    reveal_strlit("instructions");
    reveal_strlit("stream");
    reveal_strlit("store");
    reveal_strlit("model");
    reveal_strlit("input");
    reveal_strlit("parallel_tool_calls");
    reveal_strlit("reasoning");
    assert("instructions"@.len() == 12);
    assert("stream"@.len() == 6);
    assert("store"@.len() == 5);
    assert("model"@.len() == 5);
    assert("input"@.len() == 5);
    assert("parallel_tool_calls"@.len() == 19);
    assert("reasoning"@.len() == 9);
    assert("model"@[0] != "store"@[0]);
    if responses_body(body) is Ok {
        let o = responses_body(body)->Ok_0.0->Object_0;
        assert(o.len() >= 8);
        lemma_view_member_at(o, "instructions"@, 0);
        lemma_view_member_at(o, "stream"@, 1);
        lemma_view_member_at(o, "store"@, 2);
        lemma_view_member_at(o, "model"@, 3);
        lemma_view_member_at(o, "parallel_tool_calls"@, 5);
        lemma_view_member_at(o, "reasoning"@, 6);
        let out = responses_body(body)->Ok_0.0;
        assert(view_field(out, "model"@) == Some(JsonView::Str(responses_body(body)->Ok_0.2)));
        assert(view_field(out, "stream"@) == Some(JsonView::Bool(true)));
        assert(view_field(out, "store"@) == Some(JsonView::Bool(false)));
        assert(view_field(out, "instructions"@) == Some(JsonView::Str(Seq::empty())));
        assert(view_field(out, "parallel_tool_calls"@) == Some(JsonView::Bool(true)));
        assert(responses_body(body)->Ok_0.1 == flag_of(e, "stream"@));
        let effort = match view_member(e, "reasoning_effort"@) {
            Some(x) => x,
            None => JsonView::Str("medium"@),
        };
        assert(o[6].1 == JsonView::Object(seq![("effort"@, effort), ("summary"@, JsonView::Str("auto"@))]));
        assert(effort == asked_effort(e));
        assert(view_field(out, "reasoning"@) == Some(JsonView::Object(seq![("effort"@, asked_effort(e)), ("summary"@, JsonView::Str("auto"@))])));
    }
}

/// Translates a Chat Completions request into a Responses request.
pub fn build_responses_body_from_chat_completions(body: &JsonValue) -> (r: Result<(JsonValue, bool, String), String>)
    ensures
        match responses_body(*body) {
            Ok((v, stream, model)) => r matches Ok(t) && json_view(t.0) == v && t.1 == stream && t.2@ == model,
            Err(e) => r matches Err(s) && s@ == e,
        },
{
    let e = match body {
        JsonValue::Object(e) => e,
        _ => return Err(lit("chat/completions 请求体必须是 JSON 对象")),
    };
    let model = match non_blank_exec(get_entry(e, "model")) {
        Some(m) => resolve_supported_model_alias(m.as_str()),
        None => return Err(lit("chat/completions 请求缺少 model")),
    };
    let messages = match get_entry(e, "messages") {
        Some(m) => m,
        None => return Err(lit("chat/completions 请求缺少 messages")),
    };
    let map = build_short_tool_name_map(body);
    let input = normalize_chat_messages_for_responses(messages, &map);
    let stream = flag_exec(e, "stream");
    let effort = match get_entry(e, "reasoning_effort") {
        Some(x) => clone_json(x),
        None => JsonValue::String(lit("medium")),
    };
    let ghost effort_v = json_view(effort);
    let mut reasoning: Vec<(String, JsonValue)> = Vec::new();
    push_entry(&mut reasoning, "effort", effort);
    push_entry(&mut reasoning, "summary", JsonValue::String(lit("auto")));
    let mut extra_fields: Vec<JsonValue> = Vec::new();
    push_item(&mut extra_fields, JsonValue::String(lit("reasoning.encrypted_content")));
    let mut o: Vec<(String, JsonValue)> = Vec::new();
    push_entry(&mut o, "instructions", JsonValue::String(String::new()));
    push_entry(&mut o, "stream", JsonValue::Bool(true));
    push_entry(&mut o, "store", JsonValue::Bool(false));
    push_entry(&mut o, "model", JsonValue::String(copy_string(&model)));
    push_entry(&mut o, "input", input);
    push_entry(&mut o, "parallel_tool_calls", JsonValue::Bool(true));
    push_entry(&mut o, "reasoning", JsonValue::Object(reasoning));
    let extra_key = include_key();
    push_entry(&mut o, extra_key.as_str(), JsonValue::Array(extra_fields));
    proof {
        assert(entries_view(reasoning@) =~= seq![("effort"@, effort_v), ("summary"@, JsonView::Str("auto"@))]);
        assert(items_view(extra_fields@) =~= seq![JsonView::Str("reasoning.encrypted_content"@)]);
    }
    let ghost o0 = entries_view(o@);
    match get_entry(e, "tools") {
        Some(t) => push_entry(&mut o, "tools", normalize_chat_tools(t, &map)),
        None => {},
    }
    match get_entry(e, "tool_choice") {
        Some(c) => match normalize_chat_tool_choice(c, &map) {
            Some(x) => push_entry(&mut o, "tool_choice", x),
            None => {},
        },
        None => {},
    }
    let text = text_options_exec(e);
    proof {
        crate::json::lemma_entries_view(text@);
    }
    if text.len() > 0 {
        push_entry(&mut o, "text", JsonValue::Object(text));
    }
    proof {
        match responses_body(*body) {
            Ok((v, _, _)) => {
                assert(entries_view(o@) =~= v->Object_0);
            },
            Err(_) => {},
        }
    }
    Ok((JsonValue::Object(o), stream, model))
}

} // verus!
