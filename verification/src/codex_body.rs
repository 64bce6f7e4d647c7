//! The shape Codex expects of a Responses request body: always streamed and
//! never stored, with instructions, without the sampling parameters it
//! refuses, its input as a list of messages whose text parts carry the
//! Responses part types (a system message speaking as `developer`), and the
//! web search tool under its current name.
use vstd::prelude::*;
use crate::json::{
    JsonValue, JsonView, json_view, items_view, entries_view, view_member, view_set, view_remove,
    view_text, set_member, remove_member, get_entry, clone_json, push_item, push_entry, text_of,
};
use crate::chat_request::{text_type_for_role, response_text_type_for_role, text_part};
use crate::text::{lit, str_eq, copy_string};

verus! {

broadcast use vstd::string::group_string_axioms;

/// A content part of a message of the role: a `text` part takes the text
/// part type of the role; other parts stay.
pub open spec fn codex_part(role: Seq<char>, p: JsonView) -> JsonView {
    match p {
        JsonView::Object(e) => if view_text(view_member(e, "type"@)) == Some("text"@) {
            JsonView::Object(view_set(e, "type"@, JsonView::Str(text_type_for_role(role))))
        } else {
            p
        },
        _ => p,
    }
}

/// The content of a message of the role: a text becomes one text part; the
/// parts of a list are each brought into shape; anything else stays.
pub open spec fn codex_content(role: Seq<char>, c: JsonView) -> JsonView {
    match c {
        JsonView::Str(s) => JsonView::Array(seq![text_part(role, s)]),
        JsonView::Array(items) => JsonView::Array(items.map_values(|p: JsonView| codex_part(role, p))),
        _ => c,
    }
}

/// The role a message speaks with: `developer` for `system`.
pub open spec fn codex_role(role: Seq<char>) -> Seq<char> {
    if role == "system"@ {
        "developer"@
    } else {
        role
    }
}

/// An input item: a message with a role speaks with its Codex role, and its
/// content is brought into shape for that role; other items stay.
pub open spec fn codex_item(item: JsonView) -> JsonView {
    match item {
        JsonView::Object(e) => match view_text(view_member(e, "role"@)) {
            Some(r) => {
                let role = codex_role(r);
                let e1 = if r == "system"@ {
                    view_set(e, "role"@, JsonView::Str(role))
                } else {
                    e
                };
                match view_member(e1, "content"@) {
                    Some(c) => JsonView::Object(view_set(e1, "content"@, codex_content(role, c))),
                    None => JsonView::Object(e1),
                }
            },
            None => item,
        },
        _ => item,
    }
}

/// The input: a text becomes one user message; the items of a list are each
/// brought into shape; anything else stays.
pub open spec fn codex_input(v: JsonView) -> JsonView {
    match v {
        JsonView::Str(s) => JsonView::Array(
            seq![
                JsonView::Object(
                    seq![
                        ("type"@, JsonView::Str("message"@)),
                        ("role"@, JsonView::Str("user"@)),
                        ("content"@, JsonView::Array(seq![text_part("user"@, s)])),
                    ],
                ),
            ],
        ),
        JsonView::Array(items) => JsonView::Array(items.map_values(|i: JsonView| codex_item(i))),
        _ => v,
    }
}

/// A tool: the web search preview tool goes by `web_search`; others stay.
pub open spec fn codex_tool(t: JsonView) -> JsonView {
    match t {
        JsonView::Object(e) => if view_text(view_member(e, "type"@)) == Some("web_search_preview"@) {
            JsonView::Object(view_set(e, "type"@, JsonView::Str("web_search"@)))
        } else {
            t
        },
        _ => t,
    }
}

/// A Responses body as Codex takes it: streamed, not stored, with its
/// instructions (empty text where it has none), without `temperature` and
/// `top_p`, its input and tools brought into shape. A body that is not an
/// object stays.
pub open spec fn codex_body(v: JsonView) -> JsonView {
    match v {
        JsonView::Object(e) => {
            let e1 = view_set(view_set(e, "stream"@, JsonView::Bool(true)), "store"@, JsonView::Bool(false));
            let e2 = if view_text(view_member(e1, "instructions"@)) is Some {
                e1
            } else {
                view_set(e1, "instructions"@, JsonView::Str(Seq::empty()))
            };
            let e3 = view_remove(view_remove(e2, "temperature"@), "top_p"@);
            let e4 = match view_member(e3, "input"@) {
                Some(i) => view_set(e3, "input"@, codex_input(i)),
                None => e3,
            };
            let e5 = match view_member(e4, "tools"@) {
                Some(JsonView::Array(ts)) => view_set(
                    e4,
                    "tools"@,
                    JsonView::Array(ts.map_values(|t: JsonView| codex_tool(t))),
                ),
                _ => e4,
            };
            JsonView::Object(e5)
        },
        _ => v,
    }
}

fn text_part_json(role: &str, text: String) -> (r: JsonValue)
    ensures
        json_view(r) == text_part(role@, text@),
{
    let mut o: Vec<(String, JsonValue)> = Vec::new();
    push_entry(&mut o, "text", JsonValue::String(text));
    push_entry(&mut o, "type", JsonValue::String(response_text_type_for_role(role)));
    proof {
        assert(entries_view(o@) =~= text_part(role@, text@)->Object_0);
    }
    JsonValue::Object(o)
}

fn codex_part_json(role: &str, p: &JsonValue) -> (r: JsonValue)
    ensures
        json_view(r) == codex_part(role@, json_view(*p)),
{
    match clone_json(p) {
        JsonValue::Object(mut e) => {
            let is_text = match text_of(get_entry(&e, "type")) {
                Some(t) => str_eq(t.as_str(), "text"),
                None => false,
            };
            if is_text {
                set_member(&mut e, "type", JsonValue::String(response_text_type_for_role(role)));
            }
            JsonValue::Object(e)
        },
        other => other,
    }
}

fn codex_content_json(role: &str, c: &JsonValue) -> (r: JsonValue)
    ensures
        json_view(r) == codex_content(role@, json_view(*c)),
{
    match c {
        JsonValue::String(s) => {
            let mut items: Vec<JsonValue> = Vec::new();
            push_item(&mut items, text_part_json(role, copy_string(s)));
            proof {
                assert(items_view(items@) =~= seq![text_part(role@, s@)]);
            }
            JsonValue::Array(items)
        },
        JsonValue::Array(parts) => {
            proof {
                crate::json::lemma_items_view(parts@);
            }
            let mut out: Vec<JsonValue> = Vec::new();
            let n: usize = parts.len();
            let mut i: usize = 0;
            while i < n
                invariant
                    n == parts@.len(),
                    i <= n,
                    items_view(parts@).len() == n,
                    forall|j: int| 0 <= j < n ==> #[trigger] items_view(parts@)[j] == json_view(parts@[j]),
                    items_view(out@) == items_view(parts@).take(i as int).map_values(
                        |p: JsonView| codex_part(role@, p),
                    ),
                decreases n - i,
            {
                push_item(&mut out, codex_part_json(role, &parts[i]));
                assert(items_view(parts@).take(i + 1).map_values(|p: JsonView| codex_part(role@, p))
                    =~= items_view(parts@).take(i as int).map_values(|p: JsonView| codex_part(role@, p)).push(
                    codex_part(role@, json_view(parts@[i as int])),
                ));
                i = i + 1;
            }
            assert(items_view(parts@).take(n as int) =~= items_view(parts@));
            JsonValue::Array(out)
        },
        _ => clone_json(c),
    }
}

fn codex_item_json(item: &JsonValue) -> (r: JsonValue)
    ensures
        json_view(r) == codex_item(json_view(*item)),
{
    match clone_json(item) {
        JsonValue::Object(mut e) => {
            let r = match text_of(get_entry(&e, "role")) {
                Some(r) => r,
                None => return JsonValue::Object(e),
            };
            let role = if str_eq(r.as_str(), "system") {
                lit("developer")
            } else {
                copy_string(&r)
            };
            if str_eq(r.as_str(), "system") {
                set_member(&mut e, "role", JsonValue::String(copy_string(&role)));
            }
            let content = match get_entry(&e, "content") {
                Some(c) => Some(codex_content_json(role.as_str(), c)),
                None => None,
            };
            match content {
                Some(c) => set_member(&mut e, "content", c),
                None => {},
            }
            JsonValue::Object(e)
        },
        other => other,
    }
}

fn codex_input_json(v: &JsonValue) -> (r: JsonValue)
    ensures
        json_view(r) == codex_input(json_view(*v)),
{
    match v {
        JsonValue::String(s) => {
            let mut content: Vec<JsonValue> = Vec::new();
            push_item(&mut content, text_part_json("user", copy_string(s)));
            let mut o: Vec<(String, JsonValue)> = Vec::new();
            push_entry(&mut o, "type", JsonValue::String(lit("message")));
            push_entry(&mut o, "role", JsonValue::String(lit("user")));
            push_entry(&mut o, "content", JsonValue::Array(content));
            let mut items: Vec<JsonValue> = Vec::new();
            push_item(&mut items, JsonValue::Object(o));
            proof {
                assert(codex_input(json_view(*v)) =~= JsonView::Array(items_view(items@))) by {
                    assert(items_view(content@) =~= seq![text_part("user"@, s@)]);
                    let ov = JsonView::Object(
                        seq![
                            ("type"@, JsonView::Str("message"@)),
                            ("role"@, JsonView::Str("user"@)),
                            ("content"@, JsonView::Array(seq![text_part("user"@, s@)])),
                        ],
                    );
                    assert(entries_view(o@) =~= ov->Object_0);
                    assert(items_view(items@) =~= seq![ov]);
                }
            }
            JsonValue::Array(items)
        },
        JsonValue::Array(list) => {
            proof {
                crate::json::lemma_items_view(list@);
            }
            let mut out: Vec<JsonValue> = Vec::new();
            let n: usize = list.len();
            let mut i: usize = 0;
            while i < n
                invariant
                    n == list@.len(),
                    i <= n,
                    items_view(list@).len() == n,
                    forall|j: int| 0 <= j < n ==> #[trigger] items_view(list@)[j] == json_view(list@[j]),
                    items_view(out@) == items_view(list@).take(i as int).map_values(|x: JsonView| codex_item(x)),
                decreases n - i,
            {
                push_item(&mut out, codex_item_json(&list[i]));
                assert(items_view(list@).take(i + 1).map_values(|x: JsonView| codex_item(x)) =~= items_view(
                    list@,
                ).take(i as int).map_values(|x: JsonView| codex_item(x)).push(codex_item(json_view(list@[i as int]))));
                i = i + 1;
            }
            assert(items_view(list@).take(n as int) =~= items_view(list@));
            JsonValue::Array(out)
        },
        _ => clone_json(v),
    }
}

fn codex_tool_json(t: &JsonValue) -> (r: JsonValue)
    ensures
        json_view(r) == codex_tool(json_view(*t)),
{
    match clone_json(t) {
        JsonValue::Object(mut e) => {
            let is_preview = match text_of(get_entry(&e, "type")) {
                Some(x) => str_eq(x.as_str(), "web_search_preview"),
                None => false,
            };
            if is_preview {
                set_member(&mut e, "type", JsonValue::String(lit("web_search")));
            }
            JsonValue::Object(e)
        },
        other => other,
    }
}

fn codex_tools_json(list: &Vec<JsonValue>) -> (r: JsonValue)
    ensures
        json_view(r) == JsonView::Array(items_view(list@).map_values(|t: JsonView| codex_tool(t))),
{
    proof {
        crate::json::lemma_items_view(list@);
    }
    let mut out: Vec<JsonValue> = Vec::new();
    let n: usize = list.len();
    let mut i: usize = 0;
    while i < n
        invariant
            n == list@.len(),
            i <= n,
            items_view(list@).len() == n,
            forall|j: int| 0 <= j < n ==> #[trigger] items_view(list@)[j] == json_view(list@[j]),
            items_view(out@) == items_view(list@).take(i as int).map_values(|t: JsonView| codex_tool(t)),
        decreases n - i,
    {
        push_item(&mut out, codex_tool_json(&list[i]));
        assert(items_view(list@).take(i + 1).map_values(|t: JsonView| codex_tool(t)) =~= items_view(
            list@,
        ).take(i as int).map_values(|t: JsonView| codex_tool(t)).push(codex_tool(json_view(list@[i as int]))));
        i = i + 1;
    }
    assert(items_view(list@).take(n as int) =~= items_view(list@));
    JsonValue::Array(out)
}

/// Brings a Responses body into the shape Codex takes.
pub fn normalize_responses_body_for_codex(body: &mut JsonValue)
    ensures
        json_view(*final(body)) == codex_body(json_view(*old(body))),
{
    let mut e = match clone_json(body) {
        JsonValue::Object(e) => e,
        _ => return,
    };
    let ghost e0 = entries_view(e@);
    set_member(&mut e, "stream", JsonValue::Bool(true));
    set_member(&mut e, "store", JsonValue::Bool(false));
    let ghost e1 = entries_view(e@);
    assert(e1 == view_set(view_set(e0, "stream"@, JsonView::Bool(true)), "store"@, JsonView::Bool(false)));
    let has_instructions = match get_entry(&e, "instructions") {
        Some(x) => match x {
            JsonValue::String(_) => true,
            _ => {
                assert(!(json_view(*x) is Str));
                false
            },
        },
        None => false,
    };
    assert(has_instructions == (view_text(view_member(e1, "instructions"@)) is Some));
    if !has_instructions {
        proof {
            reveal_strlit("");
        }
        let empty = lit("");
        assert(empty@ =~= Seq::<char>::empty());
        set_member(&mut e, "instructions", JsonValue::String(empty));
        assert(entries_view(e@) == view_set(e1, "instructions"@, JsonView::Str(Seq::empty())));
    }
    let ghost e2 = entries_view(e@);
    assert(e2 == if view_text(view_member(e1, "instructions"@)) is Some {
        e1
    } else {
        view_set(e1, "instructions"@, JsonView::Str(Seq::empty()))
    });
    remove_member(&mut e, "temperature");
    remove_member(&mut e, "top_p");
    let ghost e3 = entries_view(e@);
    let input = match get_entry(&e, "input") {
        Some(i) => Some(codex_input_json(i)),
        None => None,
    };
    match input {
        Some(i) => set_member(&mut e, "input", i),
        None => {},
    }
    let ghost e4 = entries_view(e@);
    assert(e4 == match view_member(e3, "input"@) {
        Some(i) => view_set(e3, "input"@, codex_input(i)),
        None => e3,
    });
    let tools = match get_entry(&e, "tools") {
        Some(JsonValue::Array(ts)) => Some(codex_tools_json(ts)),
        _ => None,
    };
    match tools {
        Some(t) => set_member(&mut e, "tools", t),
        None => {},
    }
    assert(entries_view(e@) == match view_member(e4, "tools"@) {
        Some(JsonView::Array(ts)) => view_set(
            e4,
            "tools"@,
            JsonView::Array(ts.map_values(|t: JsonView| codex_tool(t))),
        ),
        _ => e4,
    });
    *body = JsonValue::Object(e);
}

} // verus!
