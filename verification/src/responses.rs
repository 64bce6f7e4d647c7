//! Reading a Responses reply from upstream, whole or as an event stream,
//! into one JSON value.
use vstd::prelude::*;
use crate::http::{crlf_crlf_at, find_sse_frame_boundary};
use crate::json::{
    JsonValue, JsonView, field, as_text, json_from_text, json_from_bytes, parse_json_text,
    parse_json_bytes, get_member, text_of, json_view, items_view, entries_view, view_member,
    view_set, set_member, clone_json, lemma_items_view, get_entry,
};
use crate::split::{lines_of, lines_exec, pieces};
use crate::text::{
    trim, starts_with, utf8_lossy, decode_utf8_lossy, chars_of, string_of, trim_vec, starts_with_exec,
    sub_vec, seq_eq, concat_str, lit, str_eq,
};
use crate::usage::{
    frame_payload, frame_payload_exec, first_boundary_from, lemma_first_boundary,
    lemma_no_boundary, lemma_first_boundary_bounds, bytes_range, completion_event,
    is_responses_completion_event,
};

verus! {

broadcast use vstd::string::group_string_axioms;

/// The name given by the last non-blank `event:` line of an event.
pub open spec fn event_name(lines: Seq<Seq<char>>) -> Option<Seq<char>>
    decreases lines.len(),
{
    if lines.len() == 0 {
        None
    } else {
        let l = trim(lines.last());
        if starts_with(l, "event:"@) && trim(l.skip("event:"@.len() as int)).len() > 0 {
            Some(trim(l.skip("event:"@.len() as int)))
        } else {
            event_name(lines.drop_last())
        }
    }
}

/// What a stream has told so far: the response that closed it, the output
/// text gathered from deltas, and the output items reported done.
pub type UpstreamState = (Option<JsonView>, Seq<char>, Seq<JsonView>);

/// The type of an event: the payload's `type`, else the event's name, else
/// nothing.
pub open spec fn event_type(v: JsonValue, name: Option<Seq<char>>) -> Seq<char> {
    match as_text(field(v, "type"@)) {
        Some(t) => t,
        None => match name {
            Some(n) => n,
            None => Seq::empty(),
        },
    }
}

/// Learning from one event's parsed payload: a text delta is appended; a
/// finished text is taken only while no text was gathered; a finished item
/// is kept; a closing event gives the response (its `response`, else the
/// whole payload).
pub open spec fn observe_event(s: UpstreamState, v: JsonValue, name: Option<Seq<char>>) -> UpstreamState {
    let ty = event_type(v, name);
    if ty == "response.output_text.delta"@ {
        match as_text(field(v, "delta"@)) {
            Some(d) => (s.0, s.1 + d, s.2),
            None => s,
        }
    } else if ty == "response.output_text.done"@ {
        if trim(s.1).len() == 0 {
            match as_text(field(v, "text"@)) {
                Some(t) => (s.0, s.1 + t, s.2),
                None => s,
            }
        } else {
            s
        }
    } else if ty == "response.output_item.done"@ {
        match field(v, "item"@) {
            Some(item) => (s.0, s.1, s.2.push(json_view(item))),
            None => s,
        }
    } else if completion_event(ty) {
        (
            Some(
                match field(v, "response"@) {
                    Some(r) => json_view(r),
                    None => json_view(v),
                },
            ),
            s.1,
            s.2,
        )
    } else {
        s
    }
}

/// Learning from one event of the stream.
pub open spec fn observe_upstream_frame(s: UpstreamState, frame: Seq<u8>) -> UpstreamState {
    match frame_payload(frame) {
        None => s,
        Some(p) => match json_from_text(p) {
            None => s,
            Some(v) => observe_event(s, v, event_name(lines_of(utf8_lossy(frame)))),
        },
    }
}

/// Learning from every complete event of a buffer; the rest is left over.
pub open spec fn drain_upstream(s: UpstreamState, buffer: Seq<u8>) -> (UpstreamState, Seq<u8>)
    decreases buffer.len(),
{
    let i = first_boundary_from(buffer, 0);
    if i < 0 {
        (s, buffer)
    } else {
        proof {
            lemma_first_boundary_bounds(buffer, 0);
        }
        let n: int = if crlf_crlf_at(buffer, i) {
            4
        } else {
            2
        };
        drain_upstream(observe_upstream_frame(s, buffer.take(i)), buffer.skip(i + n))
    }
}

/// What a whole stream tells: its complete events, then what is left over
/// as one more event.
pub open spec fn read_stream(body: Seq<u8>) -> UpstreamState {
    let d = drain_upstream((None, Seq::empty(), Seq::empty()), body);
    if d.1.len() > 0 {
        observe_upstream_frame(d.0, d.1)
    } else {
        d.0
    }
}

/// Whether a response has no output items to speak of: `output` is missing,
/// not an array, or empty.
pub open spec fn output_missing(entries: Seq<(Seq<char>, JsonView)>) -> bool {
    match view_member(entries, "output"@) {
        Some(JsonView::Array(a)) => a.len() == 0,
        _ => true,
    }
}

/// The value built from a closed stream: `{"response": ...}`, where an
/// object response gets the gathered items as its `output` when it has
/// none, and the gathered text as `output_text` when it is not blank; any
/// other response stands beside them at the top.
pub open spec fn assemble(resp: JsonView, text: Seq<char>, items: Seq<JsonView>) -> JsonView {
    match resp {
        JsonView::Object(entries) => {
            let e1 = if output_missing(entries) && items.len() > 0 {
                view_set(entries, "output"@, JsonView::Array(items))
            } else {
                entries
            };
            let e2 = if trim(text).len() > 0 {
                view_set(e1, "output_text"@, JsonView::Str(text))
            } else {
                e1
            };
            JsonView::Object(seq![("response"@, JsonView::Object(e2))])
        },
        other => {
            let r0 = seq![("response"@, other)];
            let r1 = if items.len() > 0 {
                r0.push(("output"@, JsonView::Array(items)))
            } else {
                r0
            };
            let r2 = if trim(text).len() > 0 {
                r1.push(("output_text"@, JsonView::Str(text)))
            } else {
                r1
            };
            JsonView::Object(r2)
        },
    }
}

/// The error of a body that is neither JSON nor a closed stream.
pub open spec fn unreadable_upstream_error() -> Seq<char> {
    "解析上游 responses 响应失败: 非 JSON 且未捕获 response.completed/response.done"@
}

/// A Responses reply as one value: the body itself when it is JSON; else,
/// read as an event stream, the closing response with what the stream
/// gathered; an error when no event closed it.
pub open spec fn upstream_payload(body: Seq<u8>) -> Result<JsonView, Seq<char>> {
    match json_from_bytes(body) {
        Some(v) => Ok(json_view(v)),
        None => {
            let s = read_stream(body);
            match s.0 {
                Some(resp) => Ok(assemble(resp, s.1, s.2)),
                None => Err(unreadable_upstream_error()),
            }
        },
    }
}

struct UpstreamReader {
    completed: Option<JsonValue>,
    text: String,
    items: Vec<JsonValue>,
}

impl UpstreamReader {
    spec fn state(&self) -> UpstreamState {
        (
            match self.completed {
                Some(c) => Some(json_view(c)),
                None => None,
            },
            self.text@,
            items_view(self.items@),
        )
    }

    fn observe(&mut self, frame: &Vec<u8>)
        ensures
            final(self).state() == observe_upstream_frame(old(self).state(), frame@),
    {
        let payload = match frame_payload_exec(frame) {
            Some(p) => p,
            None => return,
        };
        let value = match parse_json_text(payload.as_str()) {
            Some(v) => v,
            None => return,
        };
        let name = event_name_exec(frame);
        let ty = match text_of(get_member(&value, "type")) {
            Some(t) => t,
            None => match name {
                Some(n) => n,
                None => String::new(),
            },
        };
        if str_eq(ty.as_str(), "response.output_text.delta") {
            match text_of(get_member(&value, "delta")) {
                Some(d) => {
                    self.text = concat_str(self.text.as_str(), d.as_str());
                },
                None => {},
            }
        } else if str_eq(ty.as_str(), "response.output_text.done") {
            if trim_vec(&chars_of(self.text.as_str())).len() == 0 {
                match text_of(get_member(&value, "text")) {
                    Some(t) => {
                        self.text = concat_str(self.text.as_str(), t.as_str());
                    },
                    None => {},
                }
            }
        } else if str_eq(ty.as_str(), "response.output_item.done") {
            match get_member(&value, "item") {
                Some(item) => {
                    let ghost before = self.items@;
                    self.items.push(clone_json(item));
                    proof {
                        assert(self.items@.drop_last() =~= before);
                    }
                },
                None => {},
            }
        } else if is_responses_completion_event(ty.as_str()) {
            let resp = match get_member(&value, "response") {
                Some(r) => clone_json(r),
                None => clone_json(&value),
            };
            self.completed = Some(resp);
        }
    }

    fn drain(&mut self, input: Vec<u8>) -> (rest: Vec<u8>)
        ensures
            (final(self).state(), rest@) == drain_upstream(old(self).state(), input@),
    {
        let mut buffer = input;
        loop
            invariant
                drain_upstream(self.state(), buffer@) == drain_upstream(old(self).state(), input@),
            decreases buffer@.len(),
        {
            let ghost buf = buffer@;
            match find_sse_frame_boundary(buffer.as_slice()) {
                None => {
                    proof {
                        lemma_no_boundary(buf, 0);
                    }
                    return buffer;
                },
                Some((i, n)) => {
                    proof {
                        lemma_first_boundary(buf, 0, i as int);
                    }
                    let len = buffer.len();
                    assert(i + n <= len);
                    let frame = bytes_range(&buffer, 0, i);
                    let rest = bytes_range(&buffer, i + n, buffer.len());
                    proof {
                        assert(frame@ =~= buf.take(i as int));
                        assert(rest@ =~= buf.skip(i + n));
                    }
                    buffer = rest;
                    self.observe(&frame);
                },
            }
        }
    }
}

/// The name of an event, from its `event:` lines.
pub(crate) fn event_name_exec(frame: &Vec<u8>) -> (r: Option<String>)
    ensures
        r matches Some(n) ==> event_name(lines_of(utf8_lossy(frame@))) == Some(n@),
        r is None ==> event_name(lines_of(utf8_lossy(frame@))) is None,
{
    let text = decode_utf8_lossy(frame.as_slice());
    let lines = lines_exec(&chars_of(text.as_str()));
    let prefix = chars_of("event:");
    let mut found: Option<Vec<char>> = None;
    let mut i: usize = 0;
    while i < lines.len()
        invariant
            i <= lines.len(),
            prefix@ == "event:"@,
            match found {
                Some(f) => event_name(pieces(lines@).take(i as int)) == Some(f@),
                None => event_name(pieces(lines@).take(i as int)) is None,
            },
        decreases lines.len() - i,
    {
        let ghost t = pieces(lines@).take(i as int + 1);
        proof {
            assert(t.drop_last() =~= pieces(lines@).take(i as int));
            assert(t.last() == lines@[i as int]@);
        }
        let l = trim_vec(&lines[i]);
        if starts_with_exec(&l, &prefix) {
            let after = sub_vec(&l, prefix.len(), l.len());
            assert(after@ =~= l@.skip("event:"@.len() as int));
            let rest = trim_vec(&after);
            if rest.len() > 0 {
                found = Some(rest);
            }
        }
        i = i + 1;
    }
    proof {
        assert(pieces(lines@).take(lines@.len() as int) =~= pieces(lines@));
    }
    match found {
        Some(f) => Some(string_of(&f)),
        None => None,
    }
}

/// Reads a Responses reply from upstream into one value.
pub fn parse_responses_payload_from_upstream(body_bytes: &[u8]) -> (r: Result<JsonValue, String>)
    ensures
        r matches Ok(v) ==> upstream_payload(body_bytes@) == Ok::<JsonView, Seq<char>>(json_view(v)),
        r matches Err(e) ==> upstream_payload(body_bytes@) == Err::<JsonView, Seq<char>>(e@),
{
    match parse_json_bytes(body_bytes) {
        Some(v) => return Ok(v),
        None => {},
    }
    let mut reader = UpstreamReader { completed: None, text: String::new(), items: Vec::new() };
    proof {
        assert(reader.state() == (None::<JsonView>, Seq::<char>::empty(), Seq::<JsonView>::empty()));
    }
    let mut all: Vec<u8> = Vec::new();
    let mut k: usize = 0;
    while k < body_bytes.len()
        invariant
            k <= body_bytes@.len(),
            all@ == body_bytes@.take(k as int),
        decreases body_bytes@.len() - k,
    {
        all.push(body_bytes[k]);
        assert(body_bytes@.take(k as int + 1) =~= body_bytes@.take(k as int).push(body_bytes@[k as int]));
        k = k + 1;
    }
    assert(body_bytes@.take(body_bytes@.len() as int) =~= body_bytes@);
    let rest = reader.drain(all);
    if rest.len() > 0 {
        reader.observe(&rest);
    }
    assert(reader.state() == read_stream(body_bytes@));
    let UpstreamReader { completed, text, items } = reader;
    let response = match completed {
        Some(c) => c,
        None => {
            return Err(
                lit("解析上游 responses 响应失败: 非 JSON 且未捕获 response.completed/response.done"),
            );
        },
    };
    let has_text = trim_vec(&chars_of(text.as_str())).len() > 0;
    let has_items = items.len() > 0;
    proof {
        lemma_items_view(items@);
    }
    match response {
        JsonValue::Object(mut entries) => {
            let ghost e0 = entries_view(entries@);
            let missing = match get_entry(&entries, "output") {
                Some(JsonValue::Array(a)) => {
                    proof {
                        lemma_items_view(a@);
                    }
                    a.len() == 0
                },
                _ => true,
            };
            assert(missing == output_missing(e0));
            if missing && has_items {
                set_member(&mut entries, "output", JsonValue::Array(items));
            }
            let ghost e1 = entries_view(entries@);
            assert(e1 == (if output_missing(e0) && items_view(items@).len() > 0 {
                view_set(e0, "output"@, JsonView::Array(items_view(items@)))
            } else {
                e0
            }));
            if has_text {
                set_member(&mut entries, "output_text", JsonValue::String(text));
            }
            let mut root: Vec<(String, JsonValue)> = Vec::new();
            root.push((lit("response"), JsonValue::Object(entries)));
            let out = JsonValue::Object(root);
            proof {
                assert(entries_view(root@) =~= entries_view(root@.drop_last()).push(
                    ("response"@, json_view(root@[0].1)),
                ));
            }
            Ok(out)
        },
        other => {
            let ghost ov = json_view(other);
            let mut root: Vec<(String, JsonValue)> = Vec::new();
            root.push((lit("response"), other));
            let ghost r0 = entries_view(root@);
            assert(r0 =~= seq![("response"@, ov)]) by {
                assert(root@.drop_last() =~= Seq::<(String, JsonValue)>::empty());
                assert(entries_view(root@.drop_last()) == Seq::<(Seq<char>, JsonView)>::empty());
                assert(root@.last().0@ == "response"@);
            }
            if has_items {
                let ghost before = root@;
                root.push((lit("output"), JsonValue::Array(items)));
                assert(root@.drop_last() =~= before);
            }
            let ghost r1 = entries_view(root@);
            if has_text {
                let ghost before = root@;
                root.push((lit("output_text"), JsonValue::String(text)));
                assert(root@.drop_last() =~= before);
            }
            proof {
                assert(ov !is Object);
            }
            Ok(JsonValue::Object(root))
        },
    }
}

} // verus!
