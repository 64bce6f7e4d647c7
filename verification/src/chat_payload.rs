//! A Responses reply turned into a Chat Completions reply: the assistant's
//! text, its reasoning summary and its tool calls (under the client's own
//! tool names), the finish reason and the token usage.
use vstd::prelude::*;
use crate::clock::{now_ms, now_seconds};
use crate::errors::{decimal_text, decimal_string};
use crate::json::{
    JsonValue, JsonNumber, JsonView, NumberView, field, as_text, as_i64, get_member, text_of, i64_of,
    json_view, items_view, entries_view, push_entry, push_item, lemma_items_view, view_field,
    lemma_view_member_at,
};
use crate::text::{trim, trim_vec, chars_of, string_of, concat_str, trim_str, str_eq, lit, copy_string};
use crate::toolnames::{
    ToolNameMap, restored_tool_name, restore_tool_name, request_tool_pairs,
    build_reverse_tool_name_map_from_request,
};
use crate::usage::{UsageCapture, usage_of, extract_usage_capture, usage_block, block_counts};

verus! {

broadcast use vstd::string::group_string_axioms;

/// The object a reply's fields are read from: its `response` when that is
/// an object, else the reply itself.
pub open spec fn payload_root(v: JsonValue) -> JsonValue {
    match field(v, "response"@) {
        Some(r) => if r is Object {
            r
        } else {
            v
        },
        None => v,
    }
}

/// The root of a reply.
pub fn response_payload_root(value: &JsonValue) -> (r: &JsonValue)
    ensures
        *r == payload_root(*value),
{
    match get_member(value, "response") {
        Some(r) => match r {
            JsonValue::Object(_) => r,
            _ => value,
        },
        None => value,
    }
}

/// The output items of a reply.
pub open spec fn output_items(v: JsonValue) -> Seq<JsonValue> {
    match field(payload_root(v), "output"@) {
        Some(JsonValue::Array(items)) => items@,
        _ => Seq::empty(),
    }
}

/// A text appended to a buffer unless it is blank.
pub open spec fn append_non_empty(buf: Seq<char>, t: Seq<char>) -> Seq<char> {
    if trim(t).len() > 0 {
        buf + t
    } else {
        buf
    }
}

/// The non-blank `text` of the parts of the given type, in order.
pub open spec fn typed_texts(parts: Seq<JsonValue>, part_type: Seq<char>) -> Seq<char>
    decreases parts.len(),
{
    if parts.len() == 0 {
        Seq::empty()
    } else {
        let before = typed_texts(parts.drop_last(), part_type);
        let p = parts.last();
        if as_text(field(p, "type"@)) == Some(part_type) {
            match as_text(field(p, "text"@)) {
                Some(t) => append_non_empty(before, t),
                None => before,
            }
        } else {
            before
        }
    }
}

/// Over the items of the given type, the texts of their listed parts.
pub open spec fn items_texts(
    items: Seq<JsonValue>,
    item_type: Seq<char>,
    list_key: Seq<char>,
    part_type: Seq<char>,
) -> Seq<char>
    decreases items.len(),
{
    if items.len() == 0 {
        Seq::empty()
    } else {
        let before = items_texts(items.drop_last(), item_type, list_key, part_type);
        let it = items.last();
        if as_text(field(it, "type"@)) == Some(item_type) {
            match field(it, list_key) {
                Some(JsonValue::Array(parts)) => before + typed_texts(parts@, part_type),
                _ => before,
            }
        } else {
            before
        }
    }
}

/// The assistant's text: the `output_text` parts of its messages.
pub open spec fn output_text(v: JsonValue) -> Seq<char> {
    items_texts(output_items(v), "message"@, "content"@, "output_text"@)
}

/// The assistant's reasoning: the `summary_text` parts of its reasoning.
pub open spec fn reasoning_text(v: JsonValue) -> Seq<char> {
    items_texts(output_items(v), "reasoning"@, "summary"@, "summary_text"@)
}

fn typed_texts_exec(parts: &Vec<JsonValue>, part_type: &str) -> (r: String)
    ensures
        r@ == typed_texts(parts@, part_type@),
{
    let mut out = String::new();
    let mut i: usize = 0;
    while i < parts.len()
        invariant
            i <= parts@.len(),
            out@ == typed_texts(parts@.take(i as int), part_type@),
        decreases parts@.len() - i,
    {
        proof {
            assert(parts@.take(i as int + 1).drop_last() =~= parts@.take(i as int));
        }
        let p = &parts[i];
        let matches_type = match text_of(get_member(p, "type")) {
            Some(t) => str_eq(t.as_str(), part_type),
            None => false,
        };
        if matches_type {
            match text_of(get_member(p, "text")) {
                Some(t) => {
                    if trim_vec(&chars_of(t.as_str())).len() > 0 {
                        out = concat_str(out.as_str(), t.as_str());
                    }
                },
                None => {},
            }
        }
        i = i + 1;
    }
    assert(parts@.take(parts@.len() as int) =~= parts@);
    out
}

fn items_texts_exec(items: &Vec<JsonValue>, item_type: &str, list_key: &str, part_type: &str) -> (r:
    String)
    ensures
        r@ == items_texts(items@, item_type@, list_key@, part_type@),
{
    let mut out = String::new();
    let mut i: usize = 0;
    while i < items.len()
        invariant
            i <= items@.len(),
            out@ == items_texts(items@.take(i as int), item_type@, list_key@, part_type@),
        decreases items@.len() - i,
    {
        proof {
            assert(items@.take(i as int + 1).drop_last() =~= items@.take(i as int));
        }
        let it = &items[i];
        let matches_type = match text_of(get_member(it, "type")) {
            Some(t) => str_eq(t.as_str(), item_type),
            None => false,
        };
        if matches_type {
            match get_member(it, list_key) {
                Some(JsonValue::Array(parts)) => {
                    let t = typed_texts_exec(parts, part_type);
                    out = concat_str(out.as_str(), t.as_str());
                },
                _ => {},
            }
        }
        i = i + 1;
    }
    assert(items@.take(items@.len() as int) =~= items@);
    out
}

/// The output items of a reply.
fn output_items_exec(value: &JsonValue) -> (r: Option<&Vec<JsonValue>>)
    ensures
        r matches Some(items) ==> items@ == output_items(*value),
        r is None ==> output_items(*value) == Seq::<JsonValue>::empty(),
{
    let root = response_payload_root(value);
    match get_member(root, "output") {
        Some(JsonValue::Array(items)) => Some(items),
        _ => None,
    }
}

/// The assistant's text in a reply.
pub fn extract_output_text_from_response(response_body: &JsonValue) -> (r: String)
    ensures
        r@ == output_text(*response_body),
{
    match output_items_exec(response_body) {
        Some(items) => items_texts_exec(items, "message", "content", "output_text"),
        None => String::new(),
    }
}

/// The assistant's reasoning summary in a reply.
pub fn extract_reasoning_text_from_response(response_body: &JsonValue) -> (r: String)
    ensures
        r@ == reasoning_text(*response_body),
{
    match output_items_exec(response_body) {
        Some(items) => items_texts_exec(items, "reasoning", "summary", "summary_text"),
        None => String::new(),
    }
}

/// A text value.
pub open spec fn text_value(t: Seq<char>) -> JsonView {
    JsonView::Str(t)
}

/// One tool call of the Chat Completions reply, from a `function_call`
/// item: its call id, and its name (trimmed, restored to the client's) and
/// arguments under `function`.
pub open spec fn tool_call_view(call_id: Seq<char>, name: Seq<char>, arguments: Seq<char>) -> JsonView {
    JsonView::Object(
        seq![
            ("function"@, JsonView::Object(seq![("arguments"@, JsonView::Str(arguments)), ("name"@, JsonView::Str(name))])),
            ("id"@, JsonView::Str(call_id)),
            ("type"@, JsonView::Str("function"@)),
        ],
    )
}

/// The text of a member, or the empty text.
pub open spec fn text_or_empty(v: JsonValue, key: Seq<char>) -> Seq<char> {
    match as_text(field(v, key)) {
        Some(t) => t,
        None => Seq::empty(),
    }
}

/// An output item that is a function call with a non-blank name.
pub open spec fn is_named_call(it: JsonValue) -> bool {
    &&& it is Object
    &&& as_text(field(it, "type"@)) == Some("function_call"@)
    &&& as_text(field(it, "name"@)) is Some
    &&& trim(as_text(field(it, "name"@)).unwrap()).len() > 0
}

/// The tool calls of the output items, in order.
pub open spec fn tool_calls_of(items: Seq<JsonValue>, pairs: Seq<(Seq<char>, Seq<char>)>) -> Seq<JsonView>
    decreases items.len(),
{
    if items.len() == 0 {
        Seq::empty()
    } else {
        let before = tool_calls_of(items.drop_last(), pairs);
        let it = items.last();
        if is_named_call(it) {
            before.push(
                tool_call_view(
                    text_or_empty(it, "call_id"@),
                    restored_tool_name(pairs, trim(as_text(field(it, "name"@)).unwrap())),
                    text_or_empty(it, "arguments"@),
                ),
            )
        } else {
            before
        }
    }
}

pub(crate) fn text_or_empty_exec(v: &JsonValue, key: &str) -> (r: String)
    ensures
        r@ == text_or_empty(*v, key@),
{
    match text_of(get_member(v, key)) {
        Some(t) => t,
        None => String::new(),
    }
}

/// The tool calls of a reply, under the client's tool names.
pub fn extract_response_tool_calls(response_body: &JsonValue, map: &ToolNameMap) -> (r: Vec<JsonValue>)
    ensures
        items_view(r@) == tool_calls_of(output_items(*response_body), map.view()),
{
    let mut out: Vec<JsonValue> = Vec::new();
    let items = match output_items_exec(response_body) {
        Some(items) => items,
        None => return out,
    };
    let mut i: usize = 0;
    while i < items.len()
        invariant
            i <= items@.len(),
            items_view(out@) == tool_calls_of(items@.take(i as int), map.view()),
        decreases items@.len() - i,
    {
        proof {
            assert(items@.take(i as int + 1).drop_last() =~= items@.take(i as int));
        }
        let it = &items[i];
        let is_object = match it {
            JsonValue::Object(_) => true,
            _ => false,
        };
        let is_call = match text_of(get_member(it, "type")) {
            Some(t) => str_eq(t.as_str(), "function_call"),
            None => false,
        };
        if is_object && is_call {
            match text_of(get_member(it, "name")) {
                Some(n) => {
                    let name = trim_str(n.as_str());
                    if chars_of(name.as_str()).len() > 0 {
                        let restored = restore_tool_name(name.as_str(), map);
                        let arguments = text_or_empty_exec(it, "arguments");
                        let call_id = text_or_empty_exec(it, "call_id");
                        let mut function: Vec<(String, JsonValue)> = Vec::new();
                        push_entry(&mut function, "arguments", JsonValue::String(arguments));
                        push_entry(&mut function, "name", JsonValue::String(restored));
                        let mut call: Vec<(String, JsonValue)> = Vec::new();
                        push_entry(&mut call, "function", JsonValue::Object(function));
                        push_entry(&mut call, "id", JsonValue::String(call_id));
                        push_entry(&mut call, "type", JsonValue::String(lit("function")));
                        let v = JsonValue::Object(call);
                        proof {
                            assert(entries_view(function@) =~= seq![
                                ("arguments"@, JsonView::Str(text_or_empty(*it, "arguments"@))),
                                ("name"@, JsonView::Str(restored_tool_name(map.view(), trim(n@)))),
                            ]);
                            assert(entries_view(call@) =~= seq![
                                ("function"@, json_view(JsonValue::Object(function))),
                                ("id"@, JsonView::Str(text_or_empty(*it, "call_id"@))),
                                ("type"@, JsonView::Str("function"@)),
                            ]);
                        }
                        push_item(&mut out, v);
                    }
                },
                None => {},
            }
        }
        i = i + 1;
    }
    assert(items@.take(items@.len() as int) =~= items@);
    out
}

/// A text member, or `null` when the text is empty.
pub open spec fn text_or_null(t: Seq<char>) -> JsonView {
    if t.len() > 0 {
        JsonView::Str(t)
    } else {
        JsonView::Null
    }
}

/// The assistant message of the Chat Completions reply.
pub open spec fn chat_message_view(v: JsonValue, pairs: Seq<(Seq<char>, Seq<char>)>) -> JsonView {
    let calls = tool_calls_of(output_items(v), pairs);
    JsonView::Object(
        seq![
            ("content"@, text_or_null(output_text(v))),
            ("reasoning_content"@, text_or_null(reasoning_text(v))),
            ("role"@, JsonView::Str("assistant"@)),
            ("tool_calls"@, if calls.len() > 0 {
                JsonView::Array(calls)
            } else {
                JsonView::Null
            }),
        ],
    )
}

fn text_or_null_exec(t: String) -> (r: JsonValue)
    ensures
        json_view(r) == text_or_null(t@),
{
    if chars_of(t.as_str()).len() > 0 {
        JsonValue::String(t)
    } else {
        JsonValue::Null
    }
}

/// The assistant message of a reply.
pub fn build_chat_completion_message(response_body: &JsonValue, map: &ToolNameMap) -> (r: JsonValue)
    ensures
        json_view(r) == chat_message_view(*response_body, map.view()),
{
    message_with_calls(response_body, map).0
}

/// The assistant message of a reply, and whether it calls tools.
fn message_with_calls(response_body: &JsonValue, map: &ToolNameMap) -> (r: (JsonValue, bool))
    ensures
        json_view(r.0) == chat_message_view(*response_body, map.view()),
        r.1 == (tool_calls_of(output_items(*response_body), map.view()).len() > 0),
{
    let content = extract_output_text_from_response(response_body);
    let reasoning = extract_reasoning_text_from_response(response_body);
    let calls = extract_response_tool_calls(response_body, map);
    proof {
        lemma_items_view(calls@);
    }
    let has_calls = calls.len() > 0;
    let mut message: Vec<(String, JsonValue)> = Vec::new();
    push_entry(&mut message, "content", text_or_null_exec(content));
    push_entry(&mut message, "reasoning_content", text_or_null_exec(reasoning));
    push_entry(&mut message, "role", JsonValue::String(lit("assistant")));
    let tool_calls = if has_calls {
        JsonValue::Array(calls)
    } else {
        JsonValue::Null
    };
    push_entry(&mut message, "tool_calls", tool_calls);
    proof {
        assert(entries_view(message@) =~= seq![
            ("content"@, text_or_null(output_text(*response_body))),
            ("reasoning_content"@, text_or_null(reasoning_text(*response_body))),
            ("role"@, JsonView::Str("assistant"@)),
            ("tool_calls"@, if tool_calls_of(output_items(*response_body), map.view()).len() > 0 {
                JsonView::Array(tool_calls_of(output_items(*response_body), map.view()))
            } else {
                JsonView::Null
            }),
        ]);
    }
    (JsonValue::Object(message), has_calls)
}

/// Why the reply finished: `tool_calls` when a completed reply calls tools,
/// else `stop`.
pub open spec fn finish_reason(v: JsonValue, has_tool_calls: bool) -> Seq<char> {
    if as_text(field(payload_root(v), "status"@)) == Some("completed"@) && has_tool_calls {
        "tool_calls"@
    } else {
        "stop"@
    }
}

/// Why a reply finished.
pub fn resolve_chat_finish_reason(response_body: &JsonValue, has_tool_calls: bool) -> (r: String)
    ensures
        r@ == finish_reason(*response_body, has_tool_calls),
{
    let root = response_payload_root(response_body);
    let completed = match text_of(get_member(root, "status")) {
        Some(s) => str_eq(s.as_str(), "completed"),
        None => false,
    };
    if completed && has_tool_calls {
        lit("tool_calls")
    } else {
        lit("stop")
    }
}

/// The decimal text of a signed number.
pub open spec fn signed_decimal(i: int) -> Seq<char> {
    if i < 0 {
        "-"@ + decimal_text((-i) as nat)
    } else {
        decimal_text(i as nat)
    }
}

pub(crate) fn signed_decimal_string(i: i64) -> (r: String)
    ensures
        r@ == signed_decimal(i as int),
{
    if i < 0 {
        let magnitude: u64 = ((-(i + 1)) as u64) + 1;
        concat_str("-", decimal_string(magnitude).as_str())
    } else {
        decimal_string(i as u64)
    }
}

/// A whole number as `serde_json` holds an `i64`: unsigned when it is not
/// negative.
pub open spec fn i64_number(i: i64) -> JsonView {
    if i >= 0 {
        JsonView::Number(NumberView::PosInt(i as u64))
    } else {
        JsonView::Number(NumberView::NegInt(i))
    }
}

pub(crate) fn i64_value(i: i64) -> (r: JsonValue)
    ensures
        json_view(r) == i64_number(i),
{
    if i >= 0 {
        JsonValue::Number(JsonNumber::PosInt(i as u64))
    } else {
        JsonValue::Number(JsonNumber::NegInt(i))
    }
}

/// An unsigned number.
pub open spec fn u64_number(u: u64) -> JsonView {
    JsonView::Number(NumberView::PosInt(u))
}

/// The reply's id: its trimmed `id`, else one made from the time.
pub open spec fn chat_id(root: JsonValue, now_ms: i64) -> Seq<char> {
    match as_text(field(root, "id"@)) {
        Some(t) if trim(t).len() > 0 => trim(t),
        _ => "chatcmpl-local-"@ + signed_decimal(now_ms as int),
    }
}

/// The reply's creation time: its `created_at`, else its `created`, as a
/// whole number; else the current time.
pub open spec fn chat_created(root: JsonValue, now_s: i64) -> i64 {
    let found = match field(root, "created_at"@) {
        Some(x) => as_i64(Some(x)),
        None => as_i64(field(root, "created"@)),
    };
    match found {
        Some(c) => c,
        None => now_s,
    }
}

/// The reply's model: its trimmed `model`, else the one requested.
pub open spec fn chat_model(root: JsonValue, requested: Seq<char>) -> Seq<char> {
    match as_text(field(root, "model"@)) {
        Some(t) if trim(t).len() > 0 => trim(t),
        _ => requested,
    }
}

/// The usage block of the Chat Completions reply.
pub open spec fn chat_usage_view(u: UsageCapture) -> JsonView {
    JsonView::Object(
        seq![
            ("completion_tokens"@, u64_number(u.output_tokens)),
            ("completion_tokens_details"@, JsonView::Object(seq![("reasoning_tokens"@, u64_number(u.reasoning_tokens))])),
            ("prompt_tokens"@, u64_number(u.input_tokens)),
            ("prompt_tokens_details"@, JsonView::Object(seq![("cached_tokens"@, u64_number(u.cached_tokens))])),
            ("total_tokens"@, u64_number(u.total_tokens)),
        ],
    )
}

/// No tokens.
pub open spec fn zero_usage() -> UsageCapture {
    UsageCapture { input_tokens: 0, output_tokens: 0, total_tokens: 0, cached_tokens: 0, reasoning_tokens: 0 }
}

/// A Chat Completions reply built from a Responses reply, at the given
/// times (milliseconds for a made-up id, seconds for a missing creation
/// time).
pub open spec fn chat_payload_view(
    v: JsonValue,
    requested: Seq<char>,
    pairs: Seq<(Seq<char>, Seq<char>)>,
    now_ms: i64,
    now_s: i64,
) -> JsonView {
    let root = payload_root(v);
    let message = chat_message_view(v, pairs);
    let reason = finish_reason(v, tool_calls_of(output_items(v), pairs).len() > 0);
    let usage = match usage_of(v) {
        Some(u) => u,
        None => zero_usage(),
    };
    JsonView::Object(
        seq![
            ("choices"@, JsonView::Array(seq![JsonView::Object(seq![
                ("finish_reason"@, JsonView::Str(reason)),
                ("index"@, u64_number(0)),
                ("message"@, message),
                ("native_finish_reason"@, JsonView::Str(reason)),
            ])])),
            ("created"@, i64_number(chat_created(root, now_s))),
            ("id"@, JsonView::Str(chat_id(root, now_ms))),
            ("model"@, JsonView::Str(chat_model(root, requested))),
            ("object"@, JsonView::Str("chat.completion"@)),
            ("usage"@, chat_usage_view(usage)),
        ],
    )
}

pub(crate) fn number_value(u: u64) -> (r: JsonValue)
    ensures
        json_view(r) == u64_number(u),
{
    JsonValue::Number(JsonNumber::PosInt(u))
}

pub(crate) fn usage_value(u: &UsageCapture) -> (r: JsonValue)
    ensures
        json_view(r) == chat_usage_view(*u),
{
    let mut completion_details: Vec<(String, JsonValue)> = Vec::new();
    push_entry(&mut completion_details, "reasoning_tokens", number_value(u.reasoning_tokens));
    let mut prompt_details: Vec<(String, JsonValue)> = Vec::new();
    push_entry(&mut prompt_details, "cached_tokens", number_value(u.cached_tokens));
    let mut usage: Vec<(String, JsonValue)> = Vec::new();
    push_entry(&mut usage, "completion_tokens", number_value(u.output_tokens));
    push_entry(&mut usage, "completion_tokens_details", JsonValue::Object(completion_details));
    push_entry(&mut usage, "prompt_tokens", number_value(u.input_tokens));
    push_entry(&mut usage, "prompt_tokens_details", JsonValue::Object(prompt_details));
    push_entry(&mut usage, "total_tokens", number_value(u.total_tokens));
    proof {
        assert(entries_view(completion_details@) =~= seq![("reasoning_tokens"@, u64_number(u.reasoning_tokens))]);
        assert(entries_view(prompt_details@) =~= seq![("cached_tokens"@, u64_number(u.cached_tokens))]);
        assert(entries_view(usage@) =~= seq![
            ("completion_tokens"@, u64_number(u.output_tokens)),
            ("completion_tokens_details"@, JsonView::Object(seq![("reasoning_tokens"@, u64_number(u.reasoning_tokens))])),
            ("prompt_tokens"@, u64_number(u.input_tokens)),
            ("prompt_tokens_details"@, JsonView::Object(seq![("cached_tokens"@, u64_number(u.cached_tokens))])),
            ("total_tokens"@, u64_number(u.total_tokens)),
        ]);
    }
    JsonValue::Object(usage)
}

/// A Chat Completions reply built from a Responses reply at the given
/// times; the client's tool names come back from the tool name pairs of
/// its original request.
pub fn build_chat_completion_payload_at(
    response_body: &JsonValue,
    requested_model: &str,
    original_request_body: &[u8],
    now_ms: i64,
    now_s: i64,
) -> (r: JsonValue)
    ensures
        json_view(r) == chat_payload_view(
            *response_body,
            requested_model@,
            request_tool_pairs(original_request_body@),
            now_ms,
            now_s,
        ),
{
    let root = response_payload_root(response_body);
    let map = build_reverse_tool_name_map_from_request(original_request_body);
    let id = match text_of(get_member(root, "id")) {
        Some(t) => {
            let tt = trim_str(t.as_str());
            if chars_of(tt.as_str()).len() > 0 {
                tt
            } else {
                concat_str("chatcmpl-local-", signed_decimal_string(now_ms).as_str())
            }
        },
        None => concat_str("chatcmpl-local-", signed_decimal_string(now_ms).as_str()),
    };
    let created_found = match get_member(root, "created_at") {
        Some(x) => i64_of(Some(x)),
        None => i64_of(get_member(root, "created")),
    };
    let created = match created_found {
        Some(c) => c,
        None => now_s,
    };
    let model = match text_of(get_member(root, "model")) {
        Some(t) => {
            let tt = trim_str(t.as_str());
            if chars_of(tt.as_str()).len() > 0 {
                tt
            } else {
                lit(requested_model)
            }
        },
        None => lit(requested_model),
    };
    let (message, has_tool_calls) = message_with_calls(response_body, &map);
    let reason = resolve_chat_finish_reason(response_body, has_tool_calls);
    let usage = match extract_usage_capture(response_body) {
        Some(u) => u,
        None => UsageCapture {
            input_tokens: 0,
            output_tokens: 0,
            total_tokens: 0,
            cached_tokens: 0,
            reasoning_tokens: 0,
        },
    };
    let ghost mv = json_view(message);
    let ghost rv = reason@;
    let mut choice: Vec<(String, JsonValue)> = Vec::new();
    push_entry(&mut choice, "finish_reason", JsonValue::String(copy_string(&reason)));
    push_entry(&mut choice, "index", number_value(0));
    push_entry(&mut choice, "message", message);
    push_entry(&mut choice, "native_finish_reason", JsonValue::String(reason));
    let mut choices: Vec<JsonValue> = Vec::new();
    push_item(&mut choices, JsonValue::Object(choice));
    let mut out: Vec<(String, JsonValue)> = Vec::new();
    push_entry(&mut out, "choices", JsonValue::Array(choices));
    push_entry(&mut out, "created", i64_value(created));
    push_entry(&mut out, "id", JsonValue::String(id));
    push_entry(&mut out, "model", JsonValue::String(model));
    push_entry(&mut out, "object", JsonValue::String(lit("chat.completion")));
    push_entry(&mut out, "usage", usage_value(&usage));
    proof {
        let root_v = payload_root(*response_body);
        let pairs = request_tool_pairs(original_request_body@);
        assert(id@ == chat_id(root_v, now_ms));
        assert(created == chat_created(root_v, now_s));
        assert(model@ == chat_model(root_v, requested_model@));
        assert(reason@ == finish_reason(*response_body, tool_calls_of(output_items(*response_body), pairs).len() > 0));
        assert(usage == match usage_of(*response_body) {
            Some(u) => u,
            None => zero_usage(),
        });
        assert(entries_view(choice@) =~= seq![
            ("finish_reason"@, JsonView::Str(rv)),
            ("index"@, u64_number(0)),
            ("message"@, mv),
            ("native_finish_reason"@, JsonView::Str(rv)),
        ]);
        assert(items_view(choices@) =~= seq![json_view(JsonValue::Object(choice))]);
        assert(entries_view(out@) =~= chat_payload_view(
            *response_body,
            requested_model@,
            request_tool_pairs(original_request_body@),
            now_ms,
            now_s,
        )->Object_0);
    }
    JsonValue::Object(out)
}

/// A Chat Completions reply built from a Responses reply now: the id and
/// creation time that the reply lacks come from the clock.
pub fn build_chat_completion_payload(
    response_body: &JsonValue,
    requested_model: &str,
    original_request_body: &[u8],
) -> (r: JsonValue)
    ensures
        exists|ms: i64, s: i64|
            json_view(r) == chat_payload_view(
                *response_body,
                requested_model@,
                request_tool_pairs(original_request_body@),
                ms,
                s,
            ),
{
    let ms = now_ms();
    let s = now_seconds();
    build_chat_completion_payload_at(response_body, requested_model, original_request_body, ms, s)
}

/// A whole number as a JSON view.
pub open spec fn count_json(n: u64) -> JsonView {
    JsonView::Number(NumberView::PosInt(n))
}

/// The Chat usage block reports each count of the usage where the Chat API
/// expects it: the output tokens as `completion_tokens`, the input tokens as
/// `prompt_tokens`, the total as `total_tokens`, the reasoning tokens under
/// `completion_tokens_details` and the cached ones under
/// `prompt_tokens_details`.
pub proof fn lemma_chat_usage_counts(u: UsageCapture)
    ensures
        view_field(chat_usage_view(u), "completion_tokens"@) == Some(count_json(u.output_tokens)),
        view_field(chat_usage_view(u), "prompt_tokens"@) == Some(count_json(u.input_tokens)),
        view_field(chat_usage_view(u), "total_tokens"@) == Some(count_json(u.total_tokens)),
        view_field(chat_usage_view(u), "completion_tokens_details"@) == Some(
            JsonView::Object(seq![("reasoning_tokens"@, count_json(u.reasoning_tokens))]),
        ),
        view_field(chat_usage_view(u), "prompt_tokens_details"@) == Some(
            JsonView::Object(seq![("cached_tokens"@, count_json(u.cached_tokens))]),
        ),
{
    reveal_strlit("completion_tokens");
    reveal_strlit("completion_tokens_details");
    reveal_strlit("prompt_tokens");
    reveal_strlit("prompt_tokens_details");
    reveal_strlit("total_tokens");
    assert("completion_tokens"@.len() == 17);
    assert("completion_tokens_details"@.len() == 25);
    assert("prompt_tokens"@.len() == 13);
    assert("prompt_tokens_details"@.len() == 21);
    assert("total_tokens"@.len() == 12);
    let e = chat_usage_view(u)->Object_0;
    lemma_view_member_at(e, "completion_tokens"@, 0);
    lemma_view_member_at(e, "completion_tokens_details"@, 1);
    lemma_view_member_at(e, "prompt_tokens"@, 2);
    lemma_view_member_at(e, "prompt_tokens_details"@, 3);
    lemma_view_member_at(e, "total_tokens"@, 4);
}

/// The counts read from a usage block: the output tokens from
/// `output_tokens`, else `completion_tokens`, else `candidatesTokenCount`;
/// the input tokens from `input_tokens`, else `prompt_tokens`, else
/// `promptTokenCount`.
pub proof fn lemma_block_counts_fields(b: JsonValue, n: u64)
    ensures
        field(b, "output_tokens"@) == Some(JsonValue::Number(JsonNumber::PosInt(n))) ==> block_counts(b).output_tokens
            == n,
        field(b, "output_tokens"@) is None && field(b, "completion_tokens"@) == Some(
            JsonValue::Number(JsonNumber::PosInt(n)),
        ) ==> block_counts(b).output_tokens == n,
        field(b, "output_tokens"@) is None && field(b, "completion_tokens"@) is None && field(
            b,
            "candidatesTokenCount"@,
        ) == Some(JsonValue::Number(JsonNumber::PosInt(n))) ==> block_counts(b).output_tokens == n,
        field(b, "input_tokens"@) == Some(JsonValue::Number(JsonNumber::PosInt(n))) ==> block_counts(b).input_tokens
            == n,
        field(b, "input_tokens"@) is None && field(b, "prompt_tokens"@) == Some(
            JsonValue::Number(JsonNumber::PosInt(n)),
        ) ==> block_counts(b).input_tokens == n,
        field(b, "input_tokens"@) is None && field(b, "prompt_tokens"@) is None && field(b, "promptTokenCount"@)
            == Some(JsonValue::Number(JsonNumber::PosInt(n))) ==> block_counts(b).input_tokens == n,
{
}

/// The usage of a Chat Completions reply: when the Responses reply's usage
/// block gives `output_tokens` and `input_tokens`, the reply's usage reports
/// the first as `completion_tokens` and the second as `prompt_tokens`.
pub proof fn lemma_payload_usage_counts(
    v: JsonValue,
    b: JsonValue,
    out: u64,
    inp: u64,
    requested: Seq<char>,
    pairs: Seq<(Seq<char>, Seq<char>)>,
    now_ms: i64,
    now_s: i64,
)
    requires
        usage_block(v) == Some(b),
        field(b, "output_tokens"@) == Some(JsonValue::Number(JsonNumber::PosInt(out))),
        field(b, "input_tokens"@) == Some(JsonValue::Number(JsonNumber::PosInt(inp))),
    ensures
        ({
            let usage = view_field(chat_payload_view(v, requested, pairs, now_ms, now_s), "usage"@);
            &&& usage is Some
            &&& view_field(usage->0, "completion_tokens"@) == Some(count_json(out))
            &&& view_field(usage->0, "prompt_tokens"@) == Some(count_json(inp))
        }),
{
    reveal_strlit("choices");
    reveal_strlit("created");
    reveal_strlit("id");
    reveal_strlit("model");
    reveal_strlit("object");
    reveal_strlit("usage");
    assert("model"@[0] != "usage"@[0]);
    lemma_block_counts_fields(b, out);
    lemma_block_counts_fields(b, inp);
    let u = block_counts(b);
    let e = chat_payload_view(v, requested, pairs, now_ms, now_s)->Object_0;
    lemma_view_member_at(e, "usage"@, 5);
    lemma_chat_usage_counts(u);
}

/// What a Chat Completions reply built from a Responses reply says: it is
/// a `chat.completion`; its model and id are the reply's own (trimmed) when
/// it names them, else the requested model and a local id; its one choice
/// has the same `finish_reason` and `native_finish_reason`, `tool_calls`
/// exactly when the reply completed with tool calls, else `stop`; and its
/// message is the assistant's, with the reply's output text (or null when
/// there is none) and its tool calls (or null when there are none).
pub proof fn lemma_payload_members(
    v: JsonValue,
    requested: Seq<char>,
    pairs: Seq<(Seq<char>, Seq<char>)>,
    now_ms: i64,
    now_s: i64,
)
    ensures
        ({
            let p = chat_payload_view(v, requested, pairs, now_ms, now_s);
            let root = payload_root(v);
            let calls = tool_calls_of(output_items(v), pairs);
            let completed = as_text(field(root, "status"@)) == Some("completed"@);
            &&& view_field(p, "object"@) == Some(JsonView::Str("chat.completion"@))
            &&& (as_text(field(root, "model"@)) matches Some(t) && trim(t).len() > 0) ==> view_field(p, "model"@)
                == Some(JsonView::Str(trim(as_text(field(root, "model"@))->0)))
            &&& as_text(field(root, "model"@)) is None ==> view_field(p, "model"@) == Some(JsonView::Str(requested))
            &&& (as_text(field(root, "id"@)) matches Some(t) && trim(t).len() > 0) ==> view_field(p, "id"@) == Some(
                JsonView::Str(trim(as_text(field(root, "id"@))->0)),
            )
            &&& view_field(p, "choices"@) matches Some(JsonView::Array(cs)) && cs.len() == 1 && ({
                let c = cs[0];
                &&& view_field(c, "finish_reason"@) == view_field(c, "native_finish_reason"@)
                &&& view_field(c, "finish_reason"@) == Some(
                    JsonView::Str(
                        if completed && calls.len() > 0 {
                            "tool_calls"@
                        } else {
                            "stop"@
                        },
                    ),
                )
                &&& view_field(c, "message"@) matches Some(m) && ({
                    &&& view_field(m, "role"@) == Some(JsonView::Str("assistant"@))
                    &&& output_text(v).len() > 0 ==> view_field(m, "content"@) == Some(JsonView::Str(output_text(v)))
                    &&& output_text(v).len() == 0 ==> view_field(m, "content"@) == Some(JsonView::Null)
                    &&& calls.len() > 0 ==> view_field(m, "tool_calls"@) == Some(JsonView::Array(calls))
                    &&& calls.len() == 0 ==> view_field(m, "tool_calls"@) == Some(JsonView::Null)
                })
            })
        }),
{
    reveal_strlit("choices");
    reveal_strlit("created");
    reveal_strlit("id");
    reveal_strlit("model");
    reveal_strlit("object");
    reveal_strlit("finish_reason");
    reveal_strlit("index");
    reveal_strlit("message");
    reveal_strlit("native_finish_reason");
    reveal_strlit("content");
    reveal_strlit("reasoning_content");
    reveal_strlit("role");
    reveal_strlit("tool_calls");
    assert("choices"@.len() == 7);
    assert("created"@.len() == 7);
    assert("id"@.len() == 2);
    assert("model"@.len() == 5);
    assert("object"@.len() == 6);
    assert("choices"@[1] != "created"@[1]);
    assert("finish_reason"@.len() == 13);
    assert("index"@.len() == 5);
    assert("message"@.len() == 7);
    assert("native_finish_reason"@.len() == 20);
    assert("content"@.len() == 7);
    assert("reasoning_content"@.len() == 17);
    assert("role"@.len() == 4);
    assert("tool_calls"@.len() == 10);
    let p = chat_payload_view(v, requested, pairs, now_ms, now_s)->Object_0;
    lemma_view_member_at(p, "choices"@, 0);
    lemma_view_member_at(p, "id"@, 2);
    lemma_view_member_at(p, "model"@, 3);
    lemma_view_member_at(p, "object"@, 4);
    let cs = p[0].1->Array_0;
    let c = cs[0]->Object_0;
    lemma_view_member_at(c, "finish_reason"@, 0);
    lemma_view_member_at(c, "message"@, 2);
    lemma_view_member_at(c, "native_finish_reason"@, 3);
    let m = chat_message_view(v, pairs)->Object_0;
    lemma_view_member_at(m, "content"@, 0);
    lemma_view_member_at(m, "role"@, 2);
    lemma_view_member_at(m, "tool_calls"@, 3);
}

} // verus!
