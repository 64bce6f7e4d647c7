//! A Responses event stream turned into a Chat Completions chunk stream,
//! event by event: text and reasoning deltas, tool calls (announced, then
//! their arguments), and the finish reason, with the usage that events
//! carry; the token usage and response id are captured on the way.
use vstd::prelude::*;
use vstd::utf8::encode_utf8;
use crate::chat_payload::{
    signed_decimal, signed_decimal_string, i64_number, i64_value, u64_number, number_value, chat_usage_view,
    usage_value, zero_usage, text_or_empty, text_or_empty_exec, count_json, lemma_chat_usage_counts,
    lemma_block_counts_fields,
};
use crate::clock::{now_ms, now_seconds};
use crate::http::{crlf_crlf_at, find_sse_frame_boundary};
use crate::json::{
    JsonValue, JsonView, field, field_of, as_text, as_i64, json_from_text, parse_json_text, get_member, text_of,
    i64_of, json_view, items_view, entries_view, push_entry, push_item, clone_json, json_to_string, json_text,
    JsonNumber, view_field, lemma_view_member_at,
};
use crate::responses::{event_name, event_type, event_name_exec};
use crate::split::lines_of;
use crate::text::{opt_string_text, trim, utf8_lossy, chars_of, string_of, trim_vec, concat_str, str_eq, lit, copy_string};
use crate::toolnames::{ToolNameMap, restored_tool_name, restore_tool_name, request_tool_pairs, build_reverse_tool_name_map_from_request};
use crate::usage::{
    UsageCapture, ResponseCapture, CaptureState, usage_of, block_counts, response_id_of, extract_usage_capture,
    extract_response_id, usage_counts, frame_payload, frame_payload_exec, first_boundary_from,
    lemma_first_boundary, lemma_no_boundary, lemma_first_boundary_bounds, bytes_range, completion_event,
    is_responses_completion_event, or_else, usage_block,
};

verus! {

broadcast use vstd::string::group_string_axioms;

/// What the stream has told of its response so far: its id, creation
/// time and model; the index of the current tool call (-1 before any);
/// whether arguments of the current call came as deltas; whether the
/// current call was announced.
pub type ChunkState = (Seq<char>, i64, Seq<char>, i64, bool, bool);

/// The state of a transformer: what the stream told, and what was
/// captured of usage and response id.
pub type StreamState = (ChunkState, CaptureState);

/// The model a chunk names: the event's non-blank `model`, else the
/// stream's, else the one requested.
pub open spec fn chunk_model(st: ChunkState, requested: Seq<char>, event: JsonValue) -> Seq<char> {
    match as_text(field(event, "model"@)) {
        Some(m) if trim(m).len() > 0 => m,
        _ => if trim(st.2).len() == 0 {
            requested
        } else {
            st.2
        },
    }
}

/// The id a chunk carries: the response's, else one made from the time.
pub open spec fn chunk_id(st: ChunkState, now_ms: i64) -> Seq<char> {
    if trim(st.0).len() == 0 {
        "chatcmpl-local-"@ + signed_decimal(now_ms as int)
    } else {
        st.0
    }
}

/// The creation time a chunk carries: the response's when positive, else
/// the current time.
pub open spec fn chunk_created(st: ChunkState, now_s: i64) -> i64 {
    if st.1 > 0 {
        st.1
    } else {
        now_s
    }
}

/// The usage an event carries: `response.usage`, else `usage`.
pub open spec fn chunk_usage(event: JsonValue) -> Option<JsonValue> {
    match field_of(field(event, "response"@), "usage"@) {
        Some(u) => Some(u),
        None => field(event, "usage"@),
    }
}

/// The token counts of an event's usage: none for `null`.
pub open spec fn parsed_chunk_usage(u: JsonValue) -> UsageCapture {
    if u is Null {
        zero_usage()
    } else {
        block_counts(u)
    }
}

/// One chunk of the Chat stream: the given delta and finish reason in its
/// only choice, the usage where the event carries one.
pub open spec fn chunk_view(
    st: ChunkState,
    requested: Seq<char>,
    event: JsonValue,
    now_ms: i64,
    now_s: i64,
    delta: Seq<(Seq<char>, JsonView)>,
    finish: Option<Seq<char>>,
) -> JsonView {
    let fr = match finish {
        Some(f) => JsonView::Str(f),
        None => JsonView::Null,
    };
    let choice = JsonView::Object(
        seq![
            ("delta"@, JsonView::Object(delta)),
            ("finish_reason"@, fr),
            ("index"@, u64_number(0)),
            ("native_finish_reason"@, fr),
        ],
    );
    let base = seq![
        ("choices"@, JsonView::Array(seq![choice])),
        ("created"@, i64_number(chunk_created(st, now_s))),
        ("id"@, JsonView::Str(chunk_id(st, now_ms))),
        ("model"@, JsonView::Str(chunk_model(st, requested, event))),
        ("object"@, JsonView::Str("chat.completion.chunk"@)),
    ];
    JsonView::Object(
        match chunk_usage(event) {
            Some(u) => base.push(("usage"@, chat_usage_view(parsed_chunk_usage(u)))),
            None => base,
        },
    )
}

/// A value as one event of the Chat stream.
pub open spec fn sse(v: JsonView) -> Seq<char> {
    "data: "@ + json_text(v) + "\n\n"@
}

/// One more tool call, stopping at the largest index.
pub open spec fn next_index(i: i64) -> i64 {
    if i < i64::MAX {
        (i + 1) as i64
    } else {
        i
    }
}

/// The role delta of the assistant.
pub open spec fn role_entry() -> (Seq<char>, JsonView) {
    ("role"@, JsonView::Str("assistant"@))
}

/// A tool call delta that announces a call.
pub open spec fn announced_call(index: i64, id: JsonView, name: Seq<char>, arguments: JsonView) -> JsonView {
    JsonView::Object(
        seq![
            ("function"@, JsonView::Object(seq![("arguments"@, arguments), ("name"@, JsonView::Str(name))])),
            ("id"@, id),
            ("index"@, i64_number(index)),
            ("type"@, JsonView::Str("function"@)),
        ],
    )
}

/// A tool call delta that carries arguments.
pub open spec fn arguments_call(index: i64, arguments: Seq<char>) -> JsonView {
    JsonView::Object(
        seq![
            ("function"@, JsonView::Object(seq![("arguments"@, JsonView::Str(arguments))])),
            ("index"@, i64_number(index)),
        ],
    )
}

/// A function call item of an event, if the event has one.
pub open spec fn call_item(event: JsonValue) -> Option<JsonValue> {
    match field(event, "item"@) {
        Some(item) => if item is Object && as_text(field(item, "type"@)) == Some("function_call"@) {
            Some(item)
        } else {
            None
        },
        None => None,
    }
}

/// The call id of an item as a value: its `call_id`, else empty text.
pub open spec fn call_id_view(item: JsonValue) -> JsonView {
    match field(item, "call_id"@) {
        Some(x) => json_view(x),
        None => JsonView::Str(Seq::empty()),
    }
}

/// What a parsed event does to the stream: the new state and the text it
/// adds to the Chat stream.
pub open spec fn chunk_event(
    s: StreamState,
    event: JsonValue,
    name: Option<Seq<char>>,
    pairs: Seq<(Seq<char>, Seq<char>)>,
    requested: Seq<char>,
    now_ms: i64,
    now_s: i64,
) -> (StreamState, Seq<char>) {
    let cap = (
        or_else(usage_of(event), s.1.0),
        if s.1.1 is None {
            response_id_of(event)
        } else {
            s.1.1
        },
    );
    let st = s.0;
    let ty = event_type(event, name);
    let chunk = |delta: Seq<(Seq<char>, JsonView)>, finish: Option<Seq<char>>|
        chunk_view(st, requested, event, now_ms, now_s, delta, finish);
    if ty == "response.created"@ {
        let st2 = match field(event, "response"@) {
            Some(r) => if r is Object {
                (
                    text_or_empty(r, "id"@),
                    match as_i64(field(r, "created_at"@)) {
                        Some(c) => c,
                        None => now_s,
                    },
                    match as_text(field(r, "model"@)) {
                        Some(m) => m,
                        None => requested,
                    },
                    st.3,
                    st.4,
                    st.5,
                )
            } else {
                st
            },
            None => st,
        };
        let cap2 = if cap.1 is None && st2.0.len() > 0 {
            (cap.0, Some(st2.0))
        } else {
            cap
        };
        ((st2, cap2), Seq::empty())
    } else if ty == "response.reasoning_summary_text.delta"@ {
        match as_text(field(event, "delta"@)) {
            Some(d) => ((st, cap), sse(chunk(seq![role_entry(), ("reasoning_content"@, JsonView::Str(d))], None))),
            None => ((st, cap), Seq::empty()),
        }
    } else if ty == "response.reasoning_summary_text.done"@ {
        ((st, cap), sse(chunk(seq![role_entry(), ("reasoning_content"@, JsonView::Str("\n\n"@))], None)))
    } else if ty == "response.output_text.delta"@ {
        match as_text(field(event, "delta"@)) {
            Some(d) => ((st, cap), sse(chunk(seq![role_entry(), ("content"@, JsonView::Str(d))], None))),
            None => ((st, cap), Seq::empty()),
        }
    } else if ty == "response.output_item.added"@ {
        match call_item(event) {
            None => ((st, cap), Seq::empty()),
            Some(item) => {
                let idx = next_index(st.3);
                let st2 = (st.0, st.1, st.2, idx, false, true);
                let restored = restored_tool_name(pairs, text_or_empty(item, "name"@));
                let call = announced_call(idx, call_id_view(item), restored, JsonView::Str(Seq::empty()));
                ((st2, cap), sse(chunk(seq![role_entry(), ("tool_calls"@, JsonView::Array(seq![call]))], None)))
            },
        }
    } else if ty == "response.function_call_arguments.delta"@ {
        let st2 = (st.0, st.1, st.2, st.3, true, st.5);
        match as_text(field(event, "delta"@)) {
            Some(d) => (
                (st2, cap),
                sse(chunk(seq![("tool_calls"@, JsonView::Array(seq![arguments_call(st.3, d)]))], None)),
            ),
            None => ((st2, cap), Seq::empty()),
        }
    } else if ty == "response.function_call_arguments.done"@ {
        if st.4 {
            ((st, cap), Seq::empty())
        } else {
            match as_text(field(event, "arguments"@)) {
                Some(a) => (
                    (st, cap),
                    sse(chunk(seq![("tool_calls"@, JsonView::Array(seq![arguments_call(st.3, a)]))], None)),
                ),
                None => ((st, cap), Seq::empty()),
            }
        }
    } else if ty == "response.output_item.done"@ {
        match call_item(event) {
            None => ((st, cap), Seq::empty()),
            Some(item) => if st.5 {
                (((st.0, st.1, st.2, st.3, st.4, false), cap), Seq::empty())
            } else {
                let idx = next_index(st.3);
                let st2 = (st.0, st.1, st.2, idx, st.4, st.5);
                let restored = restored_tool_name(pairs, text_or_empty(item, "name"@));
                let arguments = match field(item, "arguments"@) {
                    Some(a) => json_view(a),
                    None => JsonView::Str(Seq::empty()),
                };
                let call = announced_call(idx, call_id_view(item), restored, arguments);
                ((st2, cap), sse(chunk(seq![role_entry(), ("tool_calls"@, JsonView::Array(seq![call]))], None)))
            },
        }
    } else if completion_event(ty) {
        let reason = if st.3 >= 0 {
            "tool_calls"@
        } else {
            "stop"@
        };
        ((st, cap), sse(chunk(Seq::empty(), Some(reason))))
    } else {
        ((st, cap), Seq::empty())
    }
}

/// What one event of the upstream stream does.
pub open spec fn chunk_frame(
    s: StreamState,
    frame: Seq<u8>,
    pairs: Seq<(Seq<char>, Seq<char>)>,
    requested: Seq<char>,
    now_ms: i64,
    now_s: i64,
) -> (StreamState, Seq<char>) {
    match frame_payload(frame) {
        None => (s, Seq::empty()),
        Some(p) => match json_from_text(p) {
            None => (s, Seq::empty()),
            Some(event) => chunk_event(s, event, event_name(lines_of(utf8_lossy(frame))), pairs, requested, now_ms, now_s),
        },
    }
}

/// What every complete event of a buffer does: the new state, what is left
/// over, and the text added to the Chat stream.
pub open spec fn drain_chunks(
    s: StreamState,
    buffer: Seq<u8>,
    pairs: Seq<(Seq<char>, Seq<char>)>,
    requested: Seq<char>,
    now_ms: i64,
    now_s: i64,
) -> (StreamState, Seq<u8>, Seq<char>)
    decreases buffer.len(),
{
    let i = first_boundary_from(buffer, 0);
    if i < 0 {
        (s, buffer, Seq::empty())
    } else {
        proof {
            lemma_first_boundary_bounds(buffer, 0);
        }
        let n: int = if crlf_crlf_at(buffer, i) {
            4
        } else {
            2
        };
        let (s1, out1) = chunk_frame(s, buffer.take(i), pairs, requested, now_ms, now_s);
        let (s2, rest, out2) = drain_chunks(s1, buffer.skip(i + n), pairs, requested, now_ms, now_s);
        (s2, rest, out1 + out2)
    }
}

struct ChatStreamState {
    response_id: String,
    created_at: i64,
    model: String,
    function_call_index: i64,
    has_received_arguments_delta: bool,
    has_tool_call_announced: bool,
}

impl ChatStreamState {
    spec fn view(&self) -> ChunkState {
        (
            self.response_id@,
            self.created_at,
            self.model@,
            self.function_call_index,
            self.has_received_arguments_delta,
            self.has_tool_call_announced,
        )
    }
}

/// Turns a Responses event stream into a Chat Completions chunk stream.
pub struct ChatCompletionStreamTransformer {
    map: ToolNameMap,
    requested_model: String,
    stream_buffer: Vec<u8>,
    state: ChatStreamState,
    response_capture: ResponseCapture,
}

/// The bytes of a text.
pub(crate) fn bytes_of(s: &str) -> (r: Vec<u8>)
    ensures
        r@ == encode_utf8(s@),
{
    let b = s.as_bytes();
    let mut r: Vec<u8> = Vec::new();
    let mut i: usize = 0;
    while i < b.len()
        invariant
            i <= b@.len(),
            r@ == b@.take(i as int),
        decreases b@.len() - i,
    {
        r.push(b[i]);
        assert(b@.take(i as int + 1) =~= b@.take(i as int).push(b@[i as int]));
        i = i + 1;
    }
    assert(b@.take(b@.len() as int) =~= b@);
    r
}

impl ChatCompletionStreamTransformer {
    /// The state of the transformer.
    pub closed spec fn stream_state(&self) -> StreamState {
        (
            self.state.view(),
            (
                self.response_capture.usage,
                match self.response_capture.response_id {
                    Some(s) => Some(s@),
                    None => None,
                },
            ),
        )
    }

    /// What is waiting for the rest of its event.
    pub closed spec fn pending(&self) -> Seq<u8> {
        self.stream_buffer@
    }

    /// The tool name pairs of the client's request.
    pub closed spec fn tool_pairs(&self) -> Seq<(Seq<char>, Seq<char>)> {
        self.map.view()
    }

    /// The model the client asked for.
    pub closed spec fn requested(&self) -> Seq<char> {
        self.requested_model@
    }

    /// A transformer for a client's request, before any event.
    pub fn new(original_request_body: &[u8], requested_model: &str) -> (r: Self)
        ensures
            r.stream_state() == ((Seq::<char>::empty(), 0i64, requested_model@, -1i64, false, false), (
                None::<UsageCapture>,
                None::<Seq<char>>,
            )),
            r.pending() == Seq::<u8>::empty(),
            r.tool_pairs() == request_tool_pairs(original_request_body@),
            r.requested() == requested_model@,
    {
        ChatCompletionStreamTransformer {
            map: build_reverse_tool_name_map_from_request(original_request_body),
            requested_model: lit(requested_model),
            stream_buffer: Vec::new(),
            state: ChatStreamState {
                response_id: String::new(),
                created_at: 0,
                model: lit(requested_model),
                function_call_index: -1,
                has_received_arguments_delta: false,
                has_tool_call_announced: false,
            },
            response_capture: ResponseCapture { usage: None, response_id: None },
        }
    }

    fn chunk(&self, event: &JsonValue, now_ms: i64, now_s: i64, delta: Vec<(String, JsonValue)>, finish: Option<
        String,
    >) -> (r: String)
        ensures
            r@ == sse(
                chunk_view(
                    self.state.view(),
                    self.requested_model@,
                    *event,
                    now_ms,
                    now_s,
                    entries_view(delta@),
                    opt_string_text(finish),
                ),
            ),
    {
        let ghost dv = entries_view(delta@);
        let (fr1, fr2) = match &finish {
            Some(f) => (JsonValue::String(copy_string(f)), JsonValue::String(copy_string(f))),
            None => (JsonValue::Null, JsonValue::Null),
        };
        let mut choice: Vec<(String, JsonValue)> = Vec::new();
        push_entry(&mut choice, "delta", JsonValue::Object(delta));
        push_entry(&mut choice, "finish_reason", fr1);
        push_entry(&mut choice, "index", number_value(0));
        push_entry(&mut choice, "native_finish_reason", fr2);
        let ghost cv = entries_view(choice@);
        let mut choices: Vec<JsonValue> = Vec::new();
        push_item(&mut choices, JsonValue::Object(choice));
        let model = match text_of(get_member(event, "model")) {
            Some(m) => {
                if trim_vec(&chars_of(m.as_str())).len() > 0 {
                    m
                } else if trim_vec(&chars_of(self.state.model.as_str())).len() == 0 {
                    copy_string(&self.requested_model)
                } else {
                    copy_string(&self.state.model)
                }
            },
            None => {
                if trim_vec(&chars_of(self.state.model.as_str())).len() == 0 {
                    copy_string(&self.requested_model)
                } else {
                    copy_string(&self.state.model)
                }
            },
        };
        let id = if trim_vec(&chars_of(self.state.response_id.as_str())).len() == 0 {
            concat_str("chatcmpl-local-", signed_decimal_string(now_ms).as_str())
        } else {
            copy_string(&self.state.response_id)
        };
        let created = if self.state.created_at > 0 {
            self.state.created_at
        } else {
            now_s
        };
        let mut out: Vec<(String, JsonValue)> = Vec::new();
        push_entry(&mut out, "choices", JsonValue::Array(choices));
        push_entry(&mut out, "created", i64_value(created));
        push_entry(&mut out, "id", JsonValue::String(id));
        push_entry(&mut out, "model", JsonValue::String(model));
        push_entry(&mut out, "object", JsonValue::String(lit("chat.completion.chunk")));
        let usage = match crate::json::get_member_of(get_member(event, "response"), "usage") {
            Some(u) => Some(u),
            None => get_member(event, "usage"),
        };
        match usage {
            Some(u) => {
                let parsed = match u {
                    JsonValue::Null => UsageCapture {
                        input_tokens: 0,
                        output_tokens: 0,
                        total_tokens: 0,
                        cached_tokens: 0,
                        reasoning_tokens: 0,
                    },
                    _ => usage_counts(u),
                };
                push_entry(&mut out, "usage", usage_value(&parsed));
            },
            None => {},
        }
        proof {
            let fr = match opt_string_text(finish) {
                Some(f) => JsonView::Str(f),
                None => JsonView::Null,
            };
            assert(cv =~= seq![
                ("delta"@, JsonView::Object(dv)),
                ("finish_reason"@, fr),
                ("index"@, u64_number(0)),
                ("native_finish_reason"@, fr),
            ]);
            let spec = chunk_view(
                self.state.view(),
                self.requested_model@,
                *event,
                now_ms,
                now_s,
                dv,
                opt_string_text(finish),
            );
            assert(entries_view(out@) =~= spec->Object_0);
        }
        let v = JsonValue::Object(out);
        match json_to_string(&v) {
            Ok(text) => {
                let head = concat_str("data: ", text.as_str());
                concat_str(head.as_str(), "\n\n")
            },
            Err(_) => lit("data: {\"error\":\"failed to encode stream payload\"}\n\n"),
        }
    }
}

/// The announcement of a tool call.
fn announced_call_value(index: i64, id: JsonValue, name: String, arguments: JsonValue) -> (r: JsonValue)
    ensures
        json_view(r) == announced_call(index, json_view(id), name@, json_view(arguments)),
{
    let ghost idv = json_view(id);
    let ghost av = json_view(arguments);
    let mut function: Vec<(String, JsonValue)> = Vec::new();
    push_entry(&mut function, "arguments", arguments);
    push_entry(&mut function, "name", JsonValue::String(name));
    let ghost fv = entries_view(function@);
    let mut call: Vec<(String, JsonValue)> = Vec::new();
    push_entry(&mut call, "function", JsonValue::Object(function));
    push_entry(&mut call, "id", id);
    push_entry(&mut call, "index", i64_value(index));
    push_entry(&mut call, "type", JsonValue::String(lit("function")));
    proof {
        assert(fv =~= seq![("arguments"@, av), ("name"@, JsonView::Str(name@))]);
        assert(entries_view(call@) =~= announced_call(index, idv, name@, av)->Object_0);
    }
    JsonValue::Object(call)
}

/// Arguments for the current tool call.
fn arguments_call_value(index: i64, arguments: String) -> (r: JsonValue)
    ensures
        json_view(r) == arguments_call(index, arguments@),
{
    let mut function: Vec<(String, JsonValue)> = Vec::new();
    push_entry(&mut function, "arguments", JsonValue::String(arguments));
    let ghost fv = entries_view(function@);
    let mut call: Vec<(String, JsonValue)> = Vec::new();
    push_entry(&mut call, "function", JsonValue::Object(function));
    push_entry(&mut call, "index", i64_value(index));
    proof {
        assert(fv =~= seq![("arguments"@, JsonView::Str(arguments@))]);
        assert(entries_view(call@) =~= arguments_call(index, arguments@)->Object_0);
    }
    JsonValue::Object(call)
}

/// A delta of two members.
fn delta2(k1: &str, v1: JsonValue, k2: &str, v2: JsonValue) -> (r: Vec<(String, JsonValue)>)
    ensures
        entries_view(r@) == seq![(k1@, json_view(v1)), (k2@, json_view(v2))],
{
    let ghost a = json_view(v1);
    let ghost b = json_view(v2);
    let mut d: Vec<(String, JsonValue)> = Vec::new();
    push_entry(&mut d, k1, v1);
    push_entry(&mut d, k2, v2);
    assert(entries_view(d@) =~= seq![(k1@, a), (k2@, b)]);
    d
}

/// A delta of one member.
fn delta1(k1: &str, v1: JsonValue) -> (r: Vec<(String, JsonValue)>)
    ensures
        entries_view(r@) == seq![(k1@, json_view(v1))],
{
    let ghost a = json_view(v1);
    let mut d: Vec<(String, JsonValue)> = Vec::new();
    push_entry(&mut d, k1, v1);
    assert(entries_view(d@) =~= seq![(k1@, a)]);
    d
}

/// A one-item array.
fn single(v: JsonValue) -> (r: JsonValue)
    ensures
        json_view(r) == JsonView::Array(seq![json_view(v)]),
{
    let ghost a = json_view(v);
    let mut items: Vec<JsonValue> = Vec::new();
    push_item(&mut items, v);
    assert(items_view(items@) =~= seq![a]);
    JsonValue::Array(items)
}

/// The function call item of an event.
fn call_item_exec(event: &JsonValue) -> (r: Option<&JsonValue>)
    ensures
        r matches Some(x) ==> call_item(*event) == Some(*x),
        r is None ==> call_item(*event) is None,
{
    match get_member(event, "item") {
        Some(item) => {
            let is_object = match item {
                JsonValue::Object(_) => true,
                _ => false,
            };
            let is_call = match text_of(get_member(item, "type")) {
                Some(t) => str_eq(t.as_str(), "function_call"),
                None => false,
            };
            if is_object && is_call {
                Some(item)
            } else {
                None
            }
        },
        None => None,
    }
}

fn call_id_value(item: &JsonValue) -> (r: JsonValue)
    ensures
        json_view(r) == call_id_view(*item),
{
    match get_member(item, "call_id") {
        Some(x) => clone_json(x),
        None => JsonValue::String(String::new()),
    }
}

impl ChatCompletionStreamTransformer {
    fn process_event(&mut self, event: &JsonValue, name: Option<String>, now_ms: i64, now_s: i64) -> (r: String)
        ensures
            (final(self).stream_state(), r@) == chunk_event(
                old(self).stream_state(),
                *event,
                opt_string_text(name),
                old(self).tool_pairs(),
                old(self).requested(),
                now_ms,
                now_s,
            ),
            final(self).pending() == old(self).pending(),
            final(self).tool_pairs() == old(self).tool_pairs(),
            final(self).requested() == old(self).requested(),
    {
        match extract_usage_capture(event) {
            Some(u) => {
                self.response_capture.usage = Some(u);
            },
            None => {},
        }
        if self.response_capture.response_id.is_none() {
            self.response_capture.response_id = extract_response_id(event);
        }
        let ty = match text_of(get_member(event, "type")) {
            Some(t) => t,
            None => match name {
                Some(n) => n,
                None => String::new(),
            },
        };
        proof {
            reveal_strlit("\n\n");
        }
        if str_eq(ty.as_str(), "response.created") {
            match get_member(event, "response") {
                Some(r) => match r {
                    JsonValue::Object(_) => {
                        self.state.response_id = text_or_empty_exec(r, "id");
                        self.state.created_at = match i64_of(get_member(r, "created_at")) {
                            Some(c) => c,
                            None => now_s,
                        };
                        self.state.model = match text_of(get_member(r, "model")) {
                            Some(m) => m,
                            None => copy_string(&self.requested_model),
                        };
                    },
                    _ => {},
                },
                None => {},
            }
            if self.response_capture.response_id.is_none() && chars_of(self.state.response_id.as_str()).len() > 0 {
                self.response_capture.response_id = Some(copy_string(&self.state.response_id));
            }
            return String::new();
        }
        if str_eq(ty.as_str(), "response.reasoning_summary_text.delta") {
            return match text_of(get_member(event, "delta")) {
                Some(d) => {
                    let delta = delta2("role", JsonValue::String(lit("assistant")), "reasoning_content", JsonValue::String(d));
                    self.chunk(event, now_ms, now_s, delta, None)
                },
                None => String::new(),
            };
        }
        if str_eq(ty.as_str(), "response.reasoning_summary_text.done") {
            let delta = delta2(
                "role",
                JsonValue::String(lit("assistant")),
                "reasoning_content",
                JsonValue::String(lit("\n\n")),
            );
            return self.chunk(event, now_ms, now_s, delta, None);
        }
        if str_eq(ty.as_str(), "response.output_text.delta") {
            return match text_of(get_member(event, "delta")) {
                Some(d) => {
                    let delta = delta2("role", JsonValue::String(lit("assistant")), "content", JsonValue::String(d));
                    self.chunk(event, now_ms, now_s, delta, None)
                },
                None => String::new(),
            };
        }
        if str_eq(ty.as_str(), "response.output_item.added") {
            let item = match call_item_exec(event) {
                Some(item) => item,
                None => return String::new(),
            };
            let idx = if self.state.function_call_index < i64::MAX {
                self.state.function_call_index + 1
            } else {
                self.state.function_call_index
            };
            let restored = restore_tool_name(text_or_empty_exec(item, "name").as_str(), &self.map);
            let call = announced_call_value(idx, call_id_value(item), restored, JsonValue::String(String::new()));
            let delta = delta2("role", JsonValue::String(lit("assistant")), "tool_calls", single(call));
            let out = self.chunk(event, now_ms, now_s, delta, None);
            self.state.function_call_index = idx;
            self.state.has_received_arguments_delta = false;
            self.state.has_tool_call_announced = true;
            return out;
        }
        if str_eq(ty.as_str(), "response.function_call_arguments.delta") {
            let out = match text_of(get_member(event, "delta")) {
                Some(d) => {
                    let call = arguments_call_value(self.state.function_call_index, d);
                    let delta = delta1("tool_calls", single(call));
                    self.chunk(event, now_ms, now_s, delta, None)
                },
                None => String::new(),
            };
            self.state.has_received_arguments_delta = true;
            return out;
        }
        if str_eq(ty.as_str(), "response.function_call_arguments.done") {
            if self.state.has_received_arguments_delta {
                return String::new();
            }
            return match text_of(get_member(event, "arguments")) {
                Some(a) => {
                    let call = arguments_call_value(self.state.function_call_index, a);
                    let delta = delta1("tool_calls", single(call));
                    self.chunk(event, now_ms, now_s, delta, None)
                },
                None => String::new(),
            };
        }
        if str_eq(ty.as_str(), "response.output_item.done") {
            let item = match call_item_exec(event) {
                Some(item) => item,
                None => return String::new(),
            };
            if self.state.has_tool_call_announced {
                self.state.has_tool_call_announced = false;
                return String::new();
            }
            let idx = if self.state.function_call_index < i64::MAX {
                self.state.function_call_index + 1
            } else {
                self.state.function_call_index
            };
            let restored = restore_tool_name(text_or_empty_exec(item, "name").as_str(), &self.map);
            let arguments = match get_member(item, "arguments") {
                Some(a) => clone_json(a),
                None => JsonValue::String(String::new()),
            };
            let call = announced_call_value(idx, call_id_value(item), restored, arguments);
            let delta = delta2("role", JsonValue::String(lit("assistant")), "tool_calls", single(call));
            let out = self.chunk(event, now_ms, now_s, delta, None);
            self.state.function_call_index = idx;
            return out;
        }
        if is_responses_completion_event(ty.as_str()) {
            let reason = if self.state.function_call_index >= 0 {
                lit("tool_calls")
            } else {
                lit("stop")
            };
            let delta: Vec<(String, JsonValue)> = Vec::new();
            proof {
                assert(entries_view(delta@) =~= Seq::<(Seq<char>, JsonView)>::empty());
            }
            return self.chunk(event, now_ms, now_s, delta, Some(reason));
        }
        String::new()
    }
}

/// What the end of the upstream stream does: the rest of the buffer counts
/// as one more event, then the stream is closed with `[DONE]`; the new state
/// and the text added.
pub open spec fn finish_chunks(
    s: StreamState,
    buffer: Seq<u8>,
    pairs: Seq<(Seq<char>, Seq<char>)>,
    requested: Seq<char>,
    now_ms: i64,
    now_s: i64,
) -> (StreamState, Seq<char>) {
    let (s1, rest, out1) = drain_chunks(s, buffer, pairs, requested, now_ms, now_s);
    let (s2, out2) = if rest.len() > 0 {
        chunk_frame(s1, rest, pairs, requested, now_ms, now_s)
    } else {
        (s1, Seq::empty())
    };
    (s2, out1 + out2 + "data: [DONE]\n\n"@)
}

/// What feeding a buffer gives: the new state, what is left over, and the
/// bytes of the Chat stream.
pub open spec fn fed(
    s: StreamState,
    buffer: Seq<u8>,
    pairs: Seq<(Seq<char>, Seq<char>)>,
    requested: Seq<char>,
    now_ms: i64,
    now_s: i64,
) -> (StreamState, Seq<u8>, Seq<u8>) {
    let d = drain_chunks(s, buffer, pairs, requested, now_ms, now_s);
    (d.0, d.1, encode_utf8(d.2))
}

/// What closing the stream gives: the bytes of the Chat stream and what
/// was captured.
pub open spec fn finished(
    s: StreamState,
    buffer: Seq<u8>,
    pairs: Seq<(Seq<char>, Seq<char>)>,
    requested: Seq<char>,
    now_ms: i64,
    now_s: i64,
) -> (Seq<u8>, CaptureState) {
    let f = finish_chunks(s, buffer, pairs, requested, now_ms, now_s);
    (encode_utf8(f.1), f.0.1)
}

impl ChatCompletionStreamTransformer {
    fn process_frame(&mut self, frame: &Vec<u8>, now_ms: i64, now_s: i64) -> (r: String)
        ensures
            (final(self).stream_state(), r@) == chunk_frame(
                old(self).stream_state(),
                frame@,
                old(self).tool_pairs(),
                old(self).requested(),
                now_ms,
                now_s,
            ),
            final(self).pending() == old(self).pending(),
            final(self).tool_pairs() == old(self).tool_pairs(),
            final(self).requested() == old(self).requested(),
    {
        let payload = match frame_payload_exec(frame) {
            Some(p) => p,
            None => return String::new(),
        };
        let event = match parse_json_text(payload.as_str()) {
            Some(v) => v,
            None => return String::new(),
        };
        let name = event_name_exec(frame);
        proof {
            assert(opt_string_text(name) == event_name(lines_of(utf8_lossy(frame@))));
        }
        self.process_event(&event, name, now_ms, now_s)
    }

    fn drain(&mut self, now_ms: i64, now_s: i64) -> (r: String)
        ensures
            (final(self).stream_state(), final(self).pending(), r@) == drain_chunks(
                old(self).stream_state(),
                old(self).pending(),
                old(self).tool_pairs(),
                old(self).requested(),
                now_ms,
                now_s,
            ),
            final(self).tool_pairs() == old(self).tool_pairs(),
            final(self).requested() == old(self).requested(),
    {
        let ghost target = drain_chunks(
            old(self).stream_state(),
            old(self).pending(),
            old(self).tool_pairs(),
            old(self).requested(),
            now_ms,
            now_s,
        );
        let mut out = String::new();
        loop
            invariant
                self.tool_pairs() == old(self).tool_pairs(),
                self.requested() == old(self).requested(),
                drain_chunks(self.stream_state(), self.pending(), self.tool_pairs(), self.requested(), now_ms, now_s).0
                    == target.0,
                drain_chunks(self.stream_state(), self.pending(), self.tool_pairs(), self.requested(), now_ms, now_s).1
                    == target.1,
                out@ + drain_chunks(self.stream_state(), self.pending(), self.tool_pairs(), self.requested(), now_ms, now_s).2
                    == target.2,
                target == drain_chunks(
                    old(self).stream_state(),
                    old(self).pending(),
                    old(self).tool_pairs(),
                    old(self).requested(),
                    now_ms,
                    now_s,
                ),
            decreases self.stream_buffer@.len(),
        {
            let ghost buf = self.stream_buffer@;
            match find_sse_frame_boundary(self.stream_buffer.as_slice()) {
                None => {
                    proof {
                        lemma_no_boundary(buf, 0);
                        assert(out@ + Seq::<char>::empty() =~= out@);
                    }
                    return out;
                },
                Some((i, n)) => {
                    proof {
                        lemma_first_boundary(buf, 0, i as int);
                    }
                    let len = self.stream_buffer.len();
                    assert(i + n <= len);
                    let frame = bytes_range(&self.stream_buffer, 0, i);
                    let rest = bytes_range(&self.stream_buffer, i + n, self.stream_buffer.len());
                    proof {
                        assert(frame@ =~= buf.take(i as int));
                        assert(rest@ =~= buf.skip(i + n));
                    }
                    self.stream_buffer = rest;
                    let ghost before = out@;
                    let piece = self.process_frame(&frame, now_ms, now_s);
                    out = concat_str(out.as_str(), piece.as_str());
                    proof {
                        let d = drain_chunks(self.stream_state(), self.pending(), self.tool_pairs(), self.requested(), now_ms, now_s);
                        assert(out@ + d.2 =~= before + (piece@ + d.2));
                    }
                },
            }
        }
    }

    /// Takes the next chunk of the upstream stream, with the current time
    /// given; gives the Chat stream bytes that its complete events make.
    pub fn feed_at(&mut self, chunk: &[u8], now_ms: i64, now_s: i64) -> (r: Vec<u8>)
        ensures
            final(self).tool_pairs() == old(self).tool_pairs(),
            final(self).requested() == old(self).requested(),
            chunk@.len() == 0 ==> r@ == Seq::<u8>::empty() && final(self).stream_state() == old(
                self,
            ).stream_state() && final(self).pending() == old(self).pending(),
            chunk@.len() > 0 ==> {
                let d = drain_chunks(
                    old(self).stream_state(),
                    old(self).pending() + chunk@,
                    old(self).tool_pairs(),
                    old(self).requested(),
                    now_ms,
                    now_s,
                );
                &&& final(self).stream_state() == d.0
                &&& final(self).pending() == d.1
                &&& r@ == encode_utf8(d.2)
            },
    {
        if chunk.len() == 0 {
            return Vec::new();
        }
        let mut i: usize = 0;
        let ghost start = self.stream_buffer@;
        while i < chunk.len()
            invariant
                i <= chunk@.len(),
                self.stream_buffer@ == start + chunk@.take(i as int),
                self.stream_state() == old(self).stream_state(),
                start == old(self).pending(),
                self.tool_pairs() == old(self).tool_pairs(),
                self.requested() == old(self).requested(),
            decreases chunk@.len() - i,
        {
            self.stream_buffer.push(chunk[i]);
            assert(chunk@.take(i as int + 1) =~= chunk@.take(i as int).push(chunk@[i as int]));
            i = i + 1;
        }
        assert(chunk@.take(chunk@.len() as int) =~= chunk@);
        let text = self.drain(now_ms, now_s);
        bytes_of(text.as_str())
    }

    /// Closes the Chat stream, with the current time given: the rest of the
    /// upstream stream counts as a last event, then `[DONE]`; gives the bytes
    /// and what was captured of usage and response id.
    pub fn finish_at(self, now_ms: i64, now_s: i64) -> (r: (Vec<u8>, ResponseCapture))
        ensures
            ({
                let f = finish_chunks(
                    self.stream_state(),
                    self.pending(),
                    self.tool_pairs(),
                    self.requested(),
                    now_ms,
                    now_s,
                );
                &&& r.0@ == encode_utf8(f.1)
                &&& (r.1.usage, opt_string_text(r.1.response_id)) == f.0.1
            }),
    {
        let mut this = self;
        let first = this.drain(now_ms, now_s);
        let second = if this.stream_buffer.len() > 0 {
            let tail = bytes_range(&this.stream_buffer, 0, this.stream_buffer.len());
            assert(tail@ =~= this.stream_buffer@);
            this.process_frame(&tail, now_ms, now_s)
        } else {
            String::new()
        };
        let text = concat_str(concat_str(first.as_str(), second.as_str()).as_str(), "data: [DONE]\n\n");
        let capture = this.response_capture;
        proof {
            assert(opt_string_text(capture.response_id) == match capture.response_id {
                Some(s) => Some(s@),
                None => None,
            });
        }
        (bytes_of(text.as_str()), capture)
    }

    /// Takes the next chunk of the upstream stream now.
    pub fn feed(&mut self, chunk: &[u8]) -> (r: Vec<u8>)
        ensures
            final(self).tool_pairs() == old(self).tool_pairs(),
            final(self).requested() == old(self).requested(),
            chunk@.len() == 0 ==> r@ == Seq::<u8>::empty() && final(self).stream_state() == old(
                self,
            ).stream_state() && final(self).pending() == old(self).pending(),
            chunk@.len() > 0 ==> exists|ms: i64, s: i64|
                #[trigger] fed(
                    old(self).stream_state(),
                    old(self).pending() + chunk@,
                    old(self).tool_pairs(),
                    old(self).requested(),
                    ms,
                    s,
                ) == (final(self).stream_state(), final(self).pending(), r@),
    {
        let ms = now_ms();
        let s = now_seconds();
        let r = self.feed_at(chunk, ms, s);
        proof {
            if chunk@.len() > 0 {
                assert(fed(old(self).stream_state(), old(self).pending() + chunk@, old(self).tool_pairs(), old(self).requested(), ms, s)
                    == (self.stream_state(), self.pending(), r@));
            }
        }
        r
    }

    /// Closes the Chat stream now.
    pub fn finish(self) -> (r: (Vec<u8>, ResponseCapture))
        ensures
            exists|ms: i64, s: i64|
                #[trigger] finished(self.stream_state(), self.pending(), self.tool_pairs(), self.requested(), ms, s)
                    == (r.0@, (r.1.usage, opt_string_text(r.1.response_id))),
    {
        let ms = now_ms();
        let s = now_seconds();
        let ghost before = (self.stream_state(), self.pending(), self.tool_pairs(), self.requested());
        let r = self.finish_at(ms, s);
        proof {
            assert(finished(before.0, before.1, before.2, before.3, ms, s) == (r.0@, (r.1.usage, opt_string_text(r.1.response_id))));
        }
        r
    }
}

/// The whole Chat stream of a whole upstream stream, at the given time.
pub open spec fn chat_stream_text(
    upstream: Seq<u8>,
    original_request_body: Seq<u8>,
    requested: Seq<char>,
    now_ms: i64,
    now_s: i64,
) -> Seq<char> {
    let pairs = request_tool_pairs(original_request_body);
    let s0 = ((Seq::<char>::empty(), 0i64, requested, -1i64, false, false), (None::<UsageCapture>, None::<Seq<char>>));
    if upstream.len() == 0 {
        finish_chunks(s0, Seq::empty(), pairs, requested, now_ms, now_s).1
    } else {
        let d = drain_chunks(s0, upstream, pairs, requested, now_ms, now_s);
        d.2 + finish_chunks(d.0, d.1, pairs, requested, now_ms, now_s).1
    }
}

/// The whole Chat stream of a whole upstream stream, at the given time.
pub fn build_chat_completion_stream_body_at(
    upstream_body: &[u8],
    original_request_body: &[u8],
    requested_model: &str,
    now_ms: i64,
    now_s: i64,
) -> (r: String)
    ensures
        r@ == chat_stream_text(upstream_body@, original_request_body@, requested_model@, now_ms, now_s),
{
    let mut t = ChatCompletionStreamTransformer::new(original_request_body, requested_model);
    let first = if upstream_body.len() > 0 {
        let mut i: usize = 0;
        while i < upstream_body.len()
            invariant
                i <= upstream_body@.len(),
                t.stream_buffer@ == upstream_body@.take(i as int),
                t.stream_state() == ((Seq::<char>::empty(), 0i64, requested_model@, -1i64, false, false), (
                    None::<UsageCapture>,
                    None::<Seq<char>>,
                )),
                t.tool_pairs() == request_tool_pairs(original_request_body@),
                t.requested() == requested_model@,
            decreases upstream_body@.len() - i,
        {
            t.stream_buffer.push(upstream_body[i]);
            assert(upstream_body@.take(i as int + 1) =~= upstream_body@.take(i as int).push(upstream_body@[i as int]));
            i = i + 1;
        }
        assert(upstream_body@.take(upstream_body@.len() as int) =~= upstream_body@);
        t.drain(now_ms, now_s)
    } else {
        String::new()
    };
    let mut u = t;
    let second = u.drain(now_ms, now_s);
    let tail = if u.stream_buffer.len() > 0 {
        let rest = bytes_range(&u.stream_buffer, 0, u.stream_buffer.len());
        assert(rest@ =~= u.stream_buffer@);
        u.process_frame(&rest, now_ms, now_s)
    } else {
        String::new()
    };
    let body = concat_str(first.as_str(), second.as_str());
    let body = concat_str(body.as_str(), tail.as_str());
    let body = concat_str(body.as_str(), "data: [DONE]\n\n");
    body
}

/// The whole Chat stream of a whole upstream stream, now.
pub fn build_chat_completion_stream_body(upstream_body: &[u8], original_request_body: &[u8], requested_model: &str) -> (r:
    String)
    ensures
        exists|ms: i64, s: i64|
            #[trigger] chat_stream_text(upstream_body@, original_request_body@, requested_model@, ms, s) == r@,
{
    let ms = now_ms();
    let s = now_seconds();
    let r = build_chat_completion_stream_body_at(upstream_body, original_request_body, requested_model, ms, s);
    proof {
        assert(chat_stream_text(upstream_body@, original_request_body@, requested_model@, ms, s) == r@);
    }
    r
}


// ---------------------------------------------------------------------------
// Across events
// ---------------------------------------------------------------------------

/// Running parsed events (each with the name its frame gave) in order: the
/// state after them and the text each added.
pub open spec fn run_events(
    s: StreamState,
    events: Seq<(JsonValue, Option<Seq<char>>)>,
    pairs: Seq<(Seq<char>, Seq<char>)>,
    requested: Seq<char>,
    now_ms: i64,
    now_s: i64,
) -> (StreamState, Seq<Seq<char>>)
    decreases events.len(),
{
    if events.len() == 0 {
        (s, Seq::empty())
    } else {
        let prev = run_events(s, events.drop_last(), pairs, requested, now_ms, now_s);
        let step = chunk_event(prev.0, events.last().0, events.last().1, pairs, requested, now_ms, now_s);
        (step.0, prev.1.push(step.1))
    }
}

/// An event that adds or finishes a function call item.
pub open spec fn is_call_event(e: (JsonValue, Option<Seq<char>>)) -> bool {
    (event_type(e.0, e.1) == "response.output_item.added"@ || event_type(e.0, e.1)
        == "response.output_item.done"@) && call_item(e.0) is Some
}

/// The event names of the Responses stream are distinct.
proof fn lemma_event_names()
    ensures
        "response.created"@.len() == 16,
        "response.completed"@.len() == 18,
        "response.done"@.len() == 13,
        "response.reasoning_summary_text.delta"@.len() == 37,
        "response.reasoning_summary_text.done"@.len() == 36,
        "response.output_text.delta"@.len() == 26,
        "response.output_item.added"@.len() == 26,
        "response.function_call_arguments.delta"@.len() == 38,
        "response.function_call_arguments.done"@.len() == 37,
        "response.output_item.done"@.len() == 25,
        "response.output_text.delta"@ != "response.output_item.added"@,
        "response.function_call_arguments.done"@ != "response.reasoning_summary_text.delta"@,
{
    reveal_strlit("response.created");
    reveal_strlit("response.completed");
    reveal_strlit("response.done");
    reveal_strlit("response.reasoning_summary_text.delta");
    reveal_strlit("response.reasoning_summary_text.done");
    reveal_strlit("response.output_text.delta");
    reveal_strlit("response.output_item.added");
    reveal_strlit("response.function_call_arguments.delta");
    reveal_strlit("response.function_call_arguments.done");
    reveal_strlit("response.output_item.done");
    assert("response.output_text.delta"@[16] != "response.output_item.added"@[16]);
    assert("response.function_call_arguments.done"@[9] != "response.reasoning_summary_text.delta"@[9]);
}

/// What one event does to the tool call index: an event that adds or
/// finishes a function call item leaves a call seen (and an announced call
/// always has an index); any other event leaves the index, and whether a
/// call is open, as they were.
proof fn lemma_event_index(
    s: StreamState,
    e: (JsonValue, Option<Seq<char>>),
    pairs: Seq<(Seq<char>, Seq<char>)>,
    requested: Seq<char>,
    now_ms: i64,
    now_s: i64,
)
    requires
        s.0.3 >= -1,
        s.0.5 ==> s.0.3 >= 0,
    ensures
        ({
            let st = chunk_event(s, e.0, e.1, pairs, requested, now_ms, now_s).0.0;
            &&& st.3 >= s.0.3
            &&& st.5 ==> st.3 >= 0
            &&& is_call_event(e) ==> st.3 >= 0
            &&& !is_call_event(e) ==> st.3 == s.0.3 && st.5 == s.0.5
        }),
{
    lemma_event_names();
    let ty = event_type(e.0, e.1);
    if ty == "response.output_item.added"@ || ty == "response.output_item.done"@ {
        assert(ty != "response.created"@);
        assert(ty != "response.reasoning_summary_text.delta"@);
        assert(ty != "response.reasoning_summary_text.done"@);
        assert(ty != "response.output_text.delta"@);
        if ty == "response.output_item.done"@ {
            assert(ty != "response.output_item.added"@);
            assert(ty != "response.function_call_arguments.delta"@);
            assert(ty != "response.function_call_arguments.done"@);
        }
    }
}

/// From a stream with no tool call yet, a tool call has been seen exactly
/// when some event added or finished a function call item; the index never
/// falls below -1, and the response's id, time and model stay those set by
/// `response.created` events only.
proof fn lemma_index_tracks_calls(
    s: StreamState,
    events: Seq<(JsonValue, Option<Seq<char>>)>,
    pairs: Seq<(Seq<char>, Seq<char>)>,
    requested: Seq<char>,
    now_ms: i64,
    now_s: i64,
)
    requires
        s.0.3 == -1,
        !s.0.5,
    ensures
        ({
            let st = run_events(s, events, pairs, requested, now_ms, now_s).0.0;
            &&& st.3 >= -1
            &&& (st.5 ==> st.3 >= 0)
            &&& (st.3 >= 0 <==> exists|k: int| 0 <= k < events.len() && #[trigger] is_call_event(events[k]))
        }),
    decreases events.len(),
{
    lemma_event_names();
    if events.len() > 0 {
        let prev = events.drop_last();
        lemma_index_tracks_calls(s, prev, pairs, requested, now_ms, now_s);
        let before = run_events(s, prev, pairs, requested, now_ms, now_s).0;
        lemma_event_index(before, events.last(), pairs, requested, now_ms, now_s);
        let st = before.0;
        if st.3 >= 0 {
            let k = choose|k: int| 0 <= k < prev.len() && #[trigger] is_call_event(prev[k]);
            assert(events[k] == prev[k]);
        }
        if is_call_event(events.last()) {
            assert(is_call_event(events[events.len() - 1]));
        }
        assert forall|k: int| 0 <= k < events.len() && #[trigger] is_call_event(events[k]) implies (k
            == events.len() - 1 || is_call_event(prev[k])) by {
            if k < events.len() - 1 {
                assert(events[k] == prev[k]);
            }
        }
    }
}

/// The finish reason of the Chat stream: the chunk that a completion event
/// adds, after any events from a stream with no tool call yet, finishes with
/// `tool_calls` when some earlier event added or finished a function call
/// item, and with `stop` otherwise.
pub proof fn lemma_finish_reason(
    s: StreamState,
    events: Seq<(JsonValue, Option<Seq<char>>)>,
    last: (JsonValue, Option<Seq<char>>),
    pairs: Seq<(Seq<char>, Seq<char>)>,
    requested: Seq<char>,
    now_ms: i64,
    now_s: i64,
)
    requires
        s.0.3 == -1,
        !s.0.5,
        completion_event(event_type(last.0, last.1)),
    ensures
        ({
            let before = run_events(s, events, pairs, requested, now_ms, now_s).0;
            chunk_event(before, last.0, last.1, pairs, requested, now_ms, now_s).1 == sse(
                chunk_view(
                    before.0,
                    requested,
                    last.0,
                    now_ms,
                    now_s,
                    Seq::empty(),
                    Some(
                        if exists|k: int| 0 <= k < events.len() && #[trigger] is_call_event(events[k]) {
                            "tool_calls"@
                        } else {
                            "stop"@
                        },
                    ),
                ),
            )
        }),
{
    lemma_index_tracks_calls(s, events, pairs, requested, now_ms, now_s);
    lemma_event_names();
}

/// The chunk that announces tool call `k` of an item.
pub open spec fn announced_chunk(
    st: ChunkState,
    event: JsonValue,
    item: JsonValue,
    k: int,
    pairs: Seq<(Seq<char>, Seq<char>)>,
    requested: Seq<char>,
    now_ms: i64,
    now_s: i64,
) -> Seq<char> {
    sse(
        chunk_view(
            st,
            requested,
            event,
            now_ms,
            now_s,
            seq![
                role_entry(),
                (
                    "tool_calls"@,
                    JsonView::Array(
                        seq![
                            announced_call(
                                k as i64,
                                call_id_view(item),
                                restored_tool_name(pairs, text_or_empty(item, "name"@)),
                                JsonView::Str(Seq::empty()),
                            ),
                        ],
                    ),
                ),
            ],
            None,
        ),
    )
}

/// How many of the first `j` events add or finish a function call item.
pub open spec fn calls_before(events: Seq<(JsonValue, Option<Seq<char>>)>, j: int) -> nat
    decreases j,
{
    if j <= 0 {
        0
    } else {
        calls_before(events, j - 1) + if is_call_event(events[j - 1]) {
            1nat
        } else {
            0nat
        }
    }
}

/// Function call items come one after the other: among the events that add
/// or finish one, adding and finishing alternate, starting with an addition.
/// Any other events may stand in between.
pub open spec fn alternating_calls(events: Seq<(JsonValue, Option<Seq<char>>)>) -> bool {
    forall|j: int|
        0 <= j < events.len() && #[trigger] is_call_event(events[j]) ==> (event_type(events[j].0, events[j].1)
            == "response.output_item.added"@ <==> calls_before(events, j) % 2 == 0)
}

/// An event that adds a function call item.
pub open spec fn is_added_call(e: (JsonValue, Option<Seq<char>>)) -> bool {
    event_type(e.0, e.1) == "response.output_item.added"@ && call_item(e.0) is Some
}

/// The count of call events depends only on the events counted.
proof fn lemma_calls_before_prefix(
    a: Seq<(JsonValue, Option<Seq<char>>)>,
    b: Seq<(JsonValue, Option<Seq<char>>)>,
    j: int,
)
    requires
        0 <= j <= a.len(),
        j <= b.len(),
        forall|k: int| 0 <= k < j ==> a[k] == b[k],
    ensures
        calls_before(a, j) == calls_before(b, j),
    decreases j,
{
    if j > 0 {
        lemma_calls_before_prefix(a, b, j - 1);
        assert(a[j - 1] == b[j - 1]);
    }
}

/// The text that event `j` adds is what it adds to the state left by the
/// events before it.
proof fn lemma_run_output(
    s: StreamState,
    events: Seq<(JsonValue, Option<Seq<char>>)>,
    pairs: Seq<(Seq<char>, Seq<char>)>,
    requested: Seq<char>,
    now_ms: i64,
    now_s: i64,
)
    ensures
        run_events(s, events, pairs, requested, now_ms, now_s).1.len() == events.len(),
        forall|j: int|
            0 <= j < events.len() ==> #[trigger] run_events(s, events, pairs, requested, now_ms, now_s).1[j]
                == chunk_event(
                run_events(s, events.take(j), pairs, requested, now_ms, now_s).0,
                events[j].0,
                events[j].1,
                pairs,
                requested,
                now_ms,
                now_s,
            ).1,
    decreases events.len(),
{
    if events.len() > 0 {
        let prev = events.drop_last();
        lemma_run_output(s, prev, pairs, requested, now_ms, now_s);
        assert(events.take(events.len() - 1) =~= prev);
        assert forall|j: int| 0 <= j < prev.len() implies #[trigger] events.take(j) == prev.take(j) by {
            assert(events.take(j) =~= prev.take(j));
        }
        let r = run_events(s, events, pairs, requested, now_ms, now_s);
        assert forall|j: int| 0 <= j < events.len() implies #[trigger] r.1[j] == chunk_event(
            run_events(s, events.take(j), pairs, requested, now_ms, now_s).0,
            events[j].0,
            events[j].1,
            pairs,
            requested,
            now_ms,
            now_s,
        ).1 by {
            if j < prev.len() {
                assert(events.take(j) == prev.take(j));
                assert(prev[j] == events[j]);
            }
        }
    }
}

/// After an alternating run of call events from a stream with no tool call
/// yet, the index is that of the last call added, and a call is open exactly
/// when the count of call events is odd.
proof fn lemma_alternating_state(
    s: StreamState,
    events: Seq<(JsonValue, Option<Seq<char>>)>,
    pairs: Seq<(Seq<char>, Seq<char>)>,
    requested: Seq<char>,
    now_ms: i64,
    now_s: i64,
)
    requires
        s.0.3 == -1,
        !s.0.5,
        alternating_calls(events),
        events.len() <= i64::MAX,
    ensures
        ({
            let st = run_events(s, events, pairs, requested, now_ms, now_s).0.0;
            let c = calls_before(events, events.len() as int);
            &&& st.3 == (c + 1) / 2 - 1
            &&& st.5 == (c % 2 == 1)
        }),
    decreases events.len(),
{
    lemma_event_names();
    if events.len() > 0 {
        let n = events.len() - 1;
        let prev = events.drop_last();
        lemma_calls_before_prefix(prev, events, n);
        assert forall|j: int| 0 <= j < prev.len() && #[trigger] is_call_event(prev[j]) implies (event_type(
            prev[j].0,
            prev[j].1,
        ) == "response.output_item.added"@ <==> calls_before(prev, j) % 2 == 0) by {
            lemma_calls_before_prefix(prev, events, j);
            assert(prev[j] == events[j]);
        }
        lemma_alternating_state(s, prev, pairs, requested, now_ms, now_s);
        let before = run_events(s, prev, pairs, requested, now_ms, now_s).0;
        let c = calls_before(events, n);
        assert(c <= n) by {
            lemma_calls_bound(events, n);
        }
        lemma_event_index(before, events.last(), pairs, requested, now_ms, now_s);
        assert(events.last() == events[n]);
        if is_call_event(events[n]) {
            if c % 2 == 0 {
                assert(event_type(events[n].0, events[n].1) == "response.output_item.added"@);
            } else {
                assert(event_type(events[n].0, events[n].1) != "response.output_item.added"@);
                assert(event_type(events[n].0, events[n].1) == "response.output_item.done"@);
            }
        }
    }
}

/// At most `j` of the first `j` events are call events.
proof fn lemma_calls_bound(events: Seq<(JsonValue, Option<Seq<char>>)>, j: int)
    requires
        0 <= j,
    ensures
        calls_before(events, j) <= j,
    decreases j,
{
    if j > 0 {
        lemma_calls_bound(events, j - 1);
    }
}

/// How the Chat stream numbers tool calls: from a stream with no tool call
/// yet, when function call items come one after the other (each added, then
/// finished, whatever other events stand between), the event that adds the
/// `k`-th item announces it once, as tool call `k`, with its call id and its
/// name mapped back through the request's tool names, in a chunk made from
/// the state the events before it left; the event that finishes an item adds
/// nothing.
pub proof fn lemma_tool_call_numbering(
    s: StreamState,
    events: Seq<(JsonValue, Option<Seq<char>>)>,
    pairs: Seq<(Seq<char>, Seq<char>)>,
    requested: Seq<char>,
    now_ms: i64,
    now_s: i64,
)
    requires
        s.0.3 == -1,
        !s.0.5,
        alternating_calls(events),
        events.len() <= i64::MAX,
    ensures
        ({
            let r = run_events(s, events, pairs, requested, now_ms, now_s);
            &&& r.1.len() == events.len()
            &&& forall|j: int|
                0 <= j < events.len() && #[trigger] is_call_event(events[j]) ==> {
                    let before = run_events(s, events.take(j), pairs, requested, now_ms, now_s).0;
                    let c = calls_before(events, j);
                    &&& c % 2 == 0 ==> r.1[j] == announced_chunk(
                        before.0,
                        events[j].0,
                        call_item(events[j].0)->0,
                        (c / 2) as int,
                        pairs,
                        requested,
                        now_ms,
                        now_s,
                    )
                    &&& c % 2 == 1 ==> r.1[j] == Seq::<char>::empty()
                }
        }),
{
    lemma_event_names();
    lemma_run_output(s, events, pairs, requested, now_ms, now_s);
    let r = run_events(s, events, pairs, requested, now_ms, now_s);
    assert forall|j: int| 0 <= j < events.len() && #[trigger] is_call_event(events[j]) implies {
        let before = run_events(s, events.take(j), pairs, requested, now_ms, now_s).0;
        let c = calls_before(events, j);
        &&& c % 2 == 0 ==> r.1[j] == announced_chunk(
            before.0,
            events[j].0,
            call_item(events[j].0)->0,
            (c / 2) as int,
            pairs,
            requested,
            now_ms,
            now_s,
        )
        &&& c % 2 == 1 ==> r.1[j] == Seq::<char>::empty()
    } by {
        let head = events.take(j);
        lemma_calls_before_prefix(head, events, j);
        assert forall|i: int| 0 <= i < head.len() && #[trigger] is_call_event(head[i]) implies (event_type(
            head[i].0,
            head[i].1,
        ) == "response.output_item.added"@ <==> calls_before(head, i) % 2 == 0) by {
            lemma_calls_before_prefix(head, events, i);
            assert(head[i] == events[i]);
        }
        lemma_alternating_state(s, head, pairs, requested, now_ms, now_s);
        let c = calls_before(events, j);
        let before = run_events(s, head, pairs, requested, now_ms, now_s).0;
        assert(head.len() == j);
        assert(before.0.3 == (c + 1) / 2 - 1);
        assert(before.0.5 == (c % 2 == 1));
        assert(r.1[j] == chunk_event(before, events[j].0, events[j].1, pairs, requested, now_ms, now_s).1);
        if c % 2 == 0 {
            assert(event_type(events[j].0, events[j].1) == "response.output_item.added"@);
            assert(c <= j) by {
                lemma_calls_bound(events, j);
            }
            assert((c + 1) / 2 == c / 2) by (nonlinear_arith)
                requires
                    c % 2 == 0,
            ;
            assert(next_index(before.0.3) == c / 2);
            assert(call_item(events[j].0) is Some);
        } else {
            assert(event_type(events[j].0, events[j].1) != "response.output_item.added"@);
            assert(event_type(events[j].0, events[j].1) == "response.output_item.done"@);
        }
    }
}

/// What one event does to the flag that arguments have streamed: only an
/// event that adds a function call item clears it.
proof fn lemma_event_keeps_delta_flag(
    s: StreamState,
    e: (JsonValue, Option<Seq<char>>),
    pairs: Seq<(Seq<char>, Seq<char>)>,
    requested: Seq<char>,
    now_ms: i64,
    now_s: i64,
)
    requires
        s.0.4 || event_type(e.0, e.1) == "response.function_call_arguments.delta"@,
        !is_added_call(e),
    ensures
        chunk_event(s, e.0, e.1, pairs, requested, now_ms, now_s).0.0.4,
{
    lemma_event_names();
    let ty = event_type(e.0, e.1);
    if ty == "response.function_call_arguments.delta"@ {
        assert(ty != "response.created"@);
        assert(ty != "response.reasoning_summary_text.delta"@);
        assert(ty != "response.reasoning_summary_text.done"@);
        assert(ty != "response.output_text.delta"@);
        assert(ty != "response.output_item.added"@);
    }
}

/// Once an arguments delta has streamed after the last function call item was
/// added, the flag stays set.
proof fn lemma_delta_flag(
    s: StreamState,
    events: Seq<(JsonValue, Option<Seq<char>>)>,
    i: int,
    j: int,
    pairs: Seq<(Seq<char>, Seq<char>)>,
    requested: Seq<char>,
    now_ms: i64,
    now_s: i64,
)
    requires
        0 <= i < j <= events.len(),
        event_type(events[i].0, events[i].1) == "response.function_call_arguments.delta"@,
        forall|k: int| i < k < j ==> !#[trigger] is_added_call(events[k]),
    ensures
        run_events(s, events.take(j), pairs, requested, now_ms, now_s).0.0.4,
    decreases j,
{
    lemma_event_names();
    let head = events.take(j);
    assert(head.drop_last() =~= events.take(j - 1));
    assert(head.last() == events[j - 1]);
    if j == i + 1 {
        lemma_event_keeps_delta_flag(
            run_events(s, events.take(j - 1), pairs, requested, now_ms, now_s).0,
            events[i],
            pairs,
            requested,
            now_ms,
            now_s,
        );
    } else {
        lemma_delta_flag(s, events, i, j - 1, pairs, requested, now_ms, now_s);
        assert(!is_added_call(events[j - 1]));
        lemma_event_keeps_delta_flag(
            run_events(s, events.take(j - 1), pairs, requested, now_ms, now_s).0,
            events[j - 1],
            pairs,
            requested,
            now_ms,
            now_s,
        );
    }
}

/// The arguments of a tool call are sent once: an arguments `done` event adds
/// nothing once an arguments delta has streamed after the last function call
/// item was added.
pub proof fn lemma_arguments_done_after_delta(
    s: StreamState,
    events: Seq<(JsonValue, Option<Seq<char>>)>,
    i: int,
    j: int,
    pairs: Seq<(Seq<char>, Seq<char>)>,
    requested: Seq<char>,
    now_ms: i64,
    now_s: i64,
)
    requires
        0 <= i < j < events.len(),
        event_type(events[i].0, events[i].1) == "response.function_call_arguments.delta"@,
        forall|k: int| i < k < j ==> !#[trigger] is_added_call(events[k]),
        event_type(events[j].0, events[j].1) == "response.function_call_arguments.done"@,
    ensures
        run_events(s, events, pairs, requested, now_ms, now_s).1[j] == Seq::<char>::empty(),
{
    lemma_event_names();
    lemma_run_output(s, events, pairs, requested, now_ms, now_s);
    lemma_delta_flag(s, events, i, j, pairs, requested, now_ms, now_s);
    let ty = event_type(events[j].0, events[j].1);
    assert(ty != "response.created"@);
    assert(ty != "response.reasoning_summary_text.delta"@);
    assert(ty != "response.reasoning_summary_text.done"@);
    assert(ty != "response.output_text.delta"@);
    assert(ty != "response.output_item.added"@);
    assert(ty != "response.function_call_arguments.delta"@);
}

// ---------------------------------------------------------------------------
// Across frames
// ---------------------------------------------------------------------------

/// What a frame without a JSON payload counts as: an event that changes
/// nothing and adds nothing.
pub open spec fn no_event() -> (JsonValue, Option<Seq<char>>) {
    (JsonValue::Null, None)
}

/// The event a frame of the upstream stream carries: its parsed payload
/// with the name its `event:` line gives, or `no_event()`.
pub open spec fn frame_event(frame: Seq<u8>) -> (JsonValue, Option<Seq<char>>) {
    match frame_payload(frame) {
        None => no_event(),
        Some(p) => match json_from_text(p) {
            None => no_event(),
            Some(e) => (e, event_name(lines_of(utf8_lossy(frame)))),
        },
    }
}

/// The events that frames carry, one per frame.
pub open spec fn frame_events(frames: Seq<Seq<u8>>) -> Seq<(JsonValue, Option<Seq<char>>)> {
    frames.map_values(|f: Seq<u8>| frame_event(f))
}

/// The bytes of an upstream stream made of frames, each ended by a blank
/// line.
pub open spec fn sse_stream(frames: Seq<Seq<u8>>) -> Seq<u8>
    decreases frames.len(),
{
    if frames.len() == 0 {
        Seq::empty()
    } else {
        frames[0] + seq![10u8, 10u8] + sse_stream(frames.drop_first())
    }
}

/// A frame that the blank line after it ends: no blank line starts inside
/// it (it holds none and does not end with a line break).
pub open spec fn plain_frame(f: Seq<u8>) -> bool {
    forall|j: int| 0 <= j < f.len() ==> !#[trigger] crate::http::sse_boundary_at(ended_frame(f), j)
}

/// A frame with the blank line that ends it.
pub open spec fn ended_frame(f: Seq<u8>) -> Seq<u8> {
    f + seq![10u8, 10u8]
}

/// Texts one after the other.
pub open spec fn flatten_text(parts: Seq<Seq<char>>) -> Seq<char>
    decreases parts.len(),
{
    if parts.len() == 0 {
        Seq::empty()
    } else {
        flatten_text(parts.drop_last()) + parts.last()
    }
}

proof fn lemma_flatten_prepend(a: Seq<char>, parts: Seq<Seq<char>>)
    ensures
        flatten_text(seq![a] + parts) == a + flatten_text(parts),
    decreases parts.len(),
{
    let whole = seq![a] + parts;
    if parts.len() == 0 {
        assert(whole.drop_last() =~= Seq::<Seq<char>>::empty());
        assert(whole.last() == a);
        assert(flatten_text(Seq::<Seq<char>>::empty()) + a =~= a);
        assert(a + Seq::<char>::empty() =~= a);
    } else {
        lemma_flatten_prepend(a, parts.drop_last());
        assert(whole.drop_last() =~= seq![a] + parts.drop_last());
        assert(whole.last() == parts.last());
        assert(flatten_text(whole) == flatten_text(seq![a] + parts.drop_last()) + parts.last());
        assert(a + flatten_text(parts.drop_last()) + parts.last() =~= a + (flatten_text(parts.drop_last())
            + parts.last()));
    }
}

/// A frame does to the stream what the event it carries does.
proof fn lemma_chunk_frame_event(
    s: StreamState,
    frame: Seq<u8>,
    pairs: Seq<(Seq<char>, Seq<char>)>,
    requested: Seq<char>,
    now_ms: i64,
    now_s: i64,
)
    ensures
        chunk_frame(s, frame, pairs, requested, now_ms, now_s) == chunk_event(
            s,
            frame_event(frame).0,
            frame_event(frame).1,
            pairs,
            requested,
            now_ms,
            now_s,
        ),
{
    lemma_event_names();
    if frame_event(frame) == no_event() {
        let ty = event_type(JsonValue::Null, None);
        assert(ty =~= Seq::<char>::empty());
        assert(usage_block(JsonValue::Null) is None);
    }
}

/// Running events from one more event at the front.
proof fn lemma_run_prepend(
    s: StreamState,
    e: (JsonValue, Option<Seq<char>>),
    events: Seq<(JsonValue, Option<Seq<char>>)>,
    pairs: Seq<(Seq<char>, Seq<char>)>,
    requested: Seq<char>,
    now_ms: i64,
    now_s: i64,
)
    ensures
        ({
            let first = chunk_event(s, e.0, e.1, pairs, requested, now_ms, now_s);
            let rest = run_events(first.0, events, pairs, requested, now_ms, now_s);
            run_events(s, seq![e] + events, pairs, requested, now_ms, now_s) == (rest.0, seq![first.1] + rest.1)
        }),
    decreases events.len(),
{
    let first = chunk_event(s, e.0, e.1, pairs, requested, now_ms, now_s);
    let whole = seq![e] + events;
    if events.len() == 0 {
        assert(whole.drop_last() =~= Seq::<(JsonValue, Option<Seq<char>>)>::empty());
        assert(whole.last() == e);
        assert(run_events(s, whole.drop_last(), pairs, requested, now_ms, now_s) == (s, Seq::<Seq<char>>::empty()));
        assert(Seq::<Seq<char>>::empty().push(first.1) =~= seq![first.1] + Seq::<Seq<char>>::empty());
    } else {
        lemma_run_prepend(s, e, events.drop_last(), pairs, requested, now_ms, now_s);
        assert(whole.drop_last() =~= seq![e] + events.drop_last());
        assert(whole.last() == events.last());
        let rest = run_events(first.0, events.drop_last(), pairs, requested, now_ms, now_s);
        assert(run_events(s, whole.drop_last(), pairs, requested, now_ms, now_s) == (rest.0, seq![first.1] + rest.1));
        let step = chunk_event(rest.0, events.last().0, events.last().1, pairs, requested, now_ms, now_s);
        assert((seq![first.1] + rest.1).push(step.1) =~= seq![first.1] + rest.1.push(step.1));
    }
}

/// In a stream that starts with a plain frame, the first event ends where
/// that frame does, at a two-byte blank line.
proof fn lemma_plain_frame_boundary(f: Seq<u8>, rest: Seq<u8>)
    requires
        plain_frame(f),
    ensures
        first_boundary_from(f + seq![10u8, 10u8] + rest, 0) == f.len(),
        !crlf_crlf_at(f + seq![10u8, 10u8] + rest, f.len() as int),
        (f + seq![10u8, 10u8] + rest).take(f.len() as int) == f,
        (f + seq![10u8, 10u8] + rest).skip(f.len() as int + 2) == rest,
{
    let small = ended_frame(f);
    let b = small + rest;
    assert(b =~= f + seq![10u8, 10u8] + rest);
    assert forall|j: int| 0 <= j < f.len() implies !#[trigger] crate::http::sse_boundary_at(b, j) by {
        assert(!crate::http::sse_boundary_at(small, j));
        assert(b[j] == small[j]);
        assert(b[j + 1] == small[j + 1]);
        if j + 3 < small.len() {
            assert(b[j + 2] == small[j + 2]);
            assert(b[j + 3] == small[j + 3]);
        } else {
            assert(b[f.len() as int + 1] == 10u8);
        }
    }
    assert(b[f.len() as int] == 10u8);
    assert(b[f.len() as int + 1] == 10u8);
    assert(crate::http::sse_boundary_at(b, f.len() as int));
    lemma_first_boundary(b, 0, f.len() as int);
    assert(b.take(f.len() as int) =~= f);
    assert(b.skip(f.len() as int + 2) =~= rest);
}

/// Feeding a stream of plain frames: the events go through in order, each
/// frame counting as the event it carries, nothing is left over, and the
/// Chat stream gets the text of each event in turn.
pub proof fn lemma_drain_frames(
    s: StreamState,
    frames: Seq<Seq<u8>>,
    pairs: Seq<(Seq<char>, Seq<char>)>,
    requested: Seq<char>,
    now_ms: i64,
    now_s: i64,
)
    requires
        forall|i: int| 0 <= i < frames.len() ==> plain_frame(#[trigger] frames[i]),
    ensures
        ({
            let r = run_events(s, frame_events(frames), pairs, requested, now_ms, now_s);
            drain_chunks(s, sse_stream(frames), pairs, requested, now_ms, now_s) == (
                r.0,
                Seq::<u8>::empty(),
                flatten_text(r.1),
            )
        }),
    decreases frames.len(),
{
    if frames.len() == 0 {
        assert(frame_events(frames) =~= Seq::<(JsonValue, Option<Seq<char>>)>::empty());
        assert(first_boundary_from(Seq::<u8>::empty(), 0) == -1);
    } else {
        let f = frames[0];
        let rest = frames.drop_first();
        assert(plain_frame(frames[0]));
        assert forall|i: int| 0 <= i < rest.len() implies plain_frame(#[trigger] rest[i]) by {
            assert(rest[i] == frames[i + 1]);
        }
        lemma_plain_frame_boundary(f, sse_stream(rest));
        lemma_first_boundary_bounds(sse_stream(frames), 0);
        let first = chunk_frame(s, f, pairs, requested, now_ms, now_s);
        lemma_chunk_frame_event(s, f, pairs, requested, now_ms, now_s);
        lemma_drain_frames(first.0, rest, pairs, requested, now_ms, now_s);
        assert(frame_events(frames) =~= seq![frame_event(f)] + frame_events(rest));
        lemma_run_prepend(s, frame_event(f), frame_events(rest), pairs, requested, now_ms, now_s);
        let tail = run_events(first.0, frame_events(rest), pairs, requested, now_ms, now_s);
        lemma_flatten_prepend(first.1, tail.1);
    }
}

/// How the Chat stream numbers tool calls, over the frames fed to it: from a
/// stream with no tool call yet, fed plain frames whose function call items
/// come one after the other, the text given is that of each frame in turn;
/// the frame that adds the `k`-th item gives the chunk announcing tool call
/// `k` with its call id and restored name, and the frame that finishes an
/// item gives nothing.
pub proof fn lemma_tool_call_numbering_frames(
    s: StreamState,
    frames: Seq<Seq<u8>>,
    pairs: Seq<(Seq<char>, Seq<char>)>,
    requested: Seq<char>,
    now_ms: i64,
    now_s: i64,
)
    requires
        s.0.3 == -1,
        !s.0.5,
        forall|i: int| 0 <= i < frames.len() ==> plain_frame(#[trigger] frames[i]),
        alternating_calls(frame_events(frames)),
        frames.len() <= i64::MAX,
    ensures
        ({
            let events = frame_events(frames);
            let r = run_events(s, events, pairs, requested, now_ms, now_s);
            &&& drain_chunks(s, sse_stream(frames), pairs, requested, now_ms, now_s).2 == flatten_text(r.1)
            &&& r.1.len() == frames.len()
            &&& forall|j: int|
                0 <= j < frames.len() && #[trigger] is_call_event(events[j]) ==> {
                    let before = run_events(s, events.take(j), pairs, requested, now_ms, now_s).0;
                    let c = calls_before(events, j);
                    &&& c % 2 == 0 ==> r.1[j] == announced_chunk(
                        before.0,
                        events[j].0,
                        call_item(events[j].0)->0,
                        (c / 2) as int,
                        pairs,
                        requested,
                        now_ms,
                        now_s,
                    )
                    &&& c % 2 == 1 ==> r.1[j] == Seq::<char>::empty()
                }
        }),
{
    lemma_drain_frames(s, frames, pairs, requested, now_ms, now_s);
    lemma_tool_call_numbering(s, frame_events(frames), pairs, requested, now_ms, now_s);
}

/// The finish reason, over the frames fed to the Chat stream: after plain
/// frames from a stream with no tool call yet, a frame carrying a completion
/// event gives the chunk that finishes with `tool_calls` when an earlier
/// frame added or finished a function call item, and with `stop` otherwise.
pub proof fn lemma_finish_reason_frames(
    s: StreamState,
    frames: Seq<Seq<u8>>,
    last: Seq<u8>,
    pairs: Seq<(Seq<char>, Seq<char>)>,
    requested: Seq<char>,
    now_ms: i64,
    now_s: i64,
)
    requires
        s.0.3 == -1,
        !s.0.5,
        forall|i: int| 0 <= i < frames.len() ==> plain_frame(#[trigger] frames[i]),
        plain_frame(last),
        completion_event(event_type(frame_event(last).0, frame_event(last).1)),
    ensures
        ({
            let all = frames.push(last);
            let events = frame_events(frames);
            let before = run_events(s, events, pairs, requested, now_ms, now_s).0;
            let r = run_events(s, frame_events(all), pairs, requested, now_ms, now_s);
            &&& drain_chunks(s, sse_stream(all), pairs, requested, now_ms, now_s).2 == flatten_text(r.1)
            &&& r.1.last() == sse(
                chunk_view(
                    before.0,
                    requested,
                    frame_event(last).0,
                    now_ms,
                    now_s,
                    Seq::empty(),
                    Some(
                        if exists|k: int| 0 <= k < events.len() && #[trigger] is_call_event(events[k]) {
                            "tool_calls"@
                        } else {
                            "stop"@
                        },
                    ),
                ),
            )
        }),
{
    let all = frames.push(last);
    assert forall|i: int| 0 <= i < all.len() implies plain_frame(#[trigger] all[i]) by {
        if i < frames.len() {
            assert(all[i] == frames[i]);
        }
    }
    lemma_drain_frames(s, all, pairs, requested, now_ms, now_s);
    assert(frame_events(all).drop_last() =~= frame_events(frames));
    assert(frame_events(all).last() == frame_event(last));
    lemma_finish_reason(s, frame_events(frames), frame_event(last), pairs, requested, now_ms, now_s);
}

/// Arguments are sent once, over the frames fed to the Chat stream: among
/// plain frames, an arguments `done` frame gives nothing once an arguments
/// delta frame came after the last frame that added a function call item.
pub proof fn lemma_arguments_done_after_delta_frames(
    s: StreamState,
    frames: Seq<Seq<u8>>,
    i: int,
    j: int,
    pairs: Seq<(Seq<char>, Seq<char>)>,
    requested: Seq<char>,
    now_ms: i64,
    now_s: i64,
)
    requires
        forall|k: int| 0 <= k < frames.len() ==> plain_frame(#[trigger] frames[k]),
        0 <= i < j < frames.len(),
        event_type(frame_event(frames[i]).0, frame_event(frames[i]).1) == "response.function_call_arguments.delta"@,
        forall|k: int| i < k < j ==> !#[trigger] is_added_call(frame_event(frames[k])),
        event_type(frame_event(frames[j]).0, frame_event(frames[j]).1) == "response.function_call_arguments.done"@,
    ensures
        ({
            let r = run_events(s, frame_events(frames), pairs, requested, now_ms, now_s);
            &&& drain_chunks(s, sse_stream(frames), pairs, requested, now_ms, now_s).2 == flatten_text(r.1)
            &&& r.1[j] == Seq::<char>::empty()
        }),
{
    lemma_drain_frames(s, frames, pairs, requested, now_ms, now_s);
    let events = frame_events(frames);
    assert forall|k: int| i < k < j implies !#[trigger] is_added_call(events[k]) by {
        assert(events[k] == frame_event(frames[k]));
    }
    lemma_arguments_done_after_delta(s, events, i, j, pairs, requested, now_ms, now_s);
}

/// The usage a chunk of the Chat stream carries: when the event's usage
/// block gives `output_tokens` and `input_tokens`, the chunk reports the
/// first as `completion_tokens` and the second as `prompt_tokens`.
pub proof fn lemma_chunk_usage_counts(
    st: ChunkState,
    requested: Seq<char>,
    event: JsonValue,
    now_ms: i64,
    now_s: i64,
    delta: Seq<(Seq<char>, JsonView)>,
    finish: Option<Seq<char>>,
    b: JsonValue,
    out: u64,
    inp: u64,
)
    requires
        chunk_usage(event) == Some(b),
        field(b, "output_tokens"@) == Some(JsonValue::Number(JsonNumber::PosInt(out))),
        field(b, "input_tokens"@) == Some(JsonValue::Number(JsonNumber::PosInt(inp))),
    ensures
        ({
            let usage = view_field(chunk_view(st, requested, event, now_ms, now_s, delta, finish), "usage"@);
            &&& usage is Some
            &&& view_field(usage->0, "completion_tokens"@) == Some(count_json(out))
            &&& view_field(usage->0, "prompt_tokens"@) == Some(count_json(inp))
        }),
{
    reveal_strlit("choices");
    reveal_strlit("created");
    reveal_strlit("id");
    reveal_strlit("model");
    reveal_strlit("object");
    reveal_strlit("usage");
    assert("choices"@.len() == 7);
    assert("created"@.len() == 7);
    assert("id"@.len() == 2);
    assert("object"@.len() == 6);
    assert("usage"@.len() == 5);
    assert("model"@[0] != "usage"@[0]);
    assert(b !is Null);
    lemma_block_counts_fields(b, out);
    lemma_block_counts_fields(b, inp);
    let e = chunk_view(st, requested, event, now_ms, now_s, delta, finish)->Object_0;
    lemma_view_member_at(e, "usage"@, 5);
    lemma_chat_usage_counts(parsed_chunk_usage(b));
}

} // verus!
