//! Errors that the upstream sends over a WebSocket: an `error` frame carries
//! a status, a body and sometimes headers; the gateway turns it into the
//! status, body text, category and wait it acts on.
use vstd::prelude::*;
use crate::json::{
    JsonValue, JsonNumber, JsonView, NumberView, json_view, entries_view, field, as_text, as_u64,
    get_member, text_of, u64_of, push_entry, clone_json, parse_json_text, parse_json_bytes,
    json_from_text, json_from_bytes, json_text, json_to_string,
};
use crate::text::{
    trim, trim_str, chars_of, lit, eq_ignore_case, eq_ignore_case_exec, all_digits, is_digit,
    decimal_value, parse_decimal, sub_vec, str_eq, concat_str,
};
use crate::affinity::{text_at_path, path_keys, extract_body_string_path};
use crate::errors::{
    retry_after, parse_codex_retry_after_at, error_category, classify_upstream_error_category_at,
    decimal_text, decimal_string, upstream_error_summary, summarize_upstream_error,
};

verus! {

broadcast use vstd::string::group_string_axioms;

/// A frame as the gateway reads it.
pub enum WebSocketMessage {
    Text(String),
    Binary(Vec<u8>),
    Other,
}

/// The JSON value a frame carries: text and binary frames are parsed,
/// others carry none.
pub open spec fn message_value(m: WebSocketMessage) -> Option<JsonValue> {
    match m {
        WebSocketMessage::Text(t) => json_from_text(t@),
        WebSocketMessage::Binary(b) => json_from_bytes(b@),
        WebSocketMessage::Other => None,
    }
}

/// The JSON value a frame carries.
pub fn websocket_message_value(message: &WebSocketMessage) -> (r: Option<JsonValue>)
    ensures
        r == message_value(*message),
{
    match message {
        WebSocketMessage::Text(t) => parse_json_text(t.as_str()),
        WebSocketMessage::Binary(b) => parse_json_bytes(b.as_slice()),
        WebSocketMessage::Other => None,
    }
}

/// A number in decimal text, as `str::parse` reads an unsigned one of at
/// most `max`: an optional `+`, then one digit or more.
pub open spec fn unsigned_text(s: Seq<char>, max: int) -> Option<int> {
    let digits = if s.len() > 0 && s[0] == '+' {
        s.skip(1)
    } else {
        s
    };
    if digits.len() == 0 || !all_digits(digits) || decimal_value(digits) > max {
        None
    } else {
        Some(decimal_value(digits))
    }
}

/// Reads an unsigned number of at most `max` from decimal text.
pub fn parse_unsigned(v: &Vec<char>, max: u64) -> (r: Option<u64>)
    ensures
        match r {
            Some(x) => unsigned_text(v@, max as int) == Some(x as int),
            None => unsigned_text(v@, max as int) is None,
        },
{
    let digits = if v.len() > 0 && v[0] == '+' {
        sub_vec(v, 1, v.len())
    } else {
        sub_vec(v, 0, v.len())
    };
    assert(digits@ =~= (if v@.len() > 0 && v@[0] == '+' {
        v@.skip(1)
    } else {
        v@
    }));
    if digits.len() == 0 {
        return None;
    }
    let mut i: usize = 0;
    while i < digits.len()
        invariant
            i <= digits@.len(),
            digits@ == (if v@.len() > 0 && v@[0] == '+' {
                v@.skip(1)
            } else {
                v@
            }),
            forall|j: int| 0 <= j < i ==> is_digit(#[trigger] digits@[j]),
        decreases digits@.len() - i,
    {
        let c = digits[i];
        if !('0' <= c && c <= '9') {
            assert(!is_digit(digits@[i as int]));
            assert(!all_digits(digits@));
            return None;
        }
        i = i + 1;
    }
    parse_decimal(&digits, max)
}

/// A status a frame gives under `key`: a number from 1 to 65535, or text
/// that reads as one.
pub open spec fn status_under(value: JsonValue, key: Seq<char>) -> Option<u16> {
    match as_u64(field(value, key)) {
        Some(n) if 0 < n <= 65535 => Some(n as u16),
        _ => match as_text(field(value, key)) {
            Some(t) => match unsigned_text(trim(t), 65535) {
                Some(n) if n > 0 => Some(n as u16),
                _ => None,
            },
            None => None,
        },
    }
}

/// The status of an error frame: under `status`, else `status_code`.
pub open spec fn frame_status(value: JsonValue) -> Option<u16> {
    match status_under(value, "status"@) {
        Some(s) => Some(s),
        None => status_under(value, "status_code"@),
    }
}

fn status_under_exec(value: &JsonValue, key: &str) -> (r: Option<u16>)
    ensures
        r == status_under(*value, key@),
{
    match u64_of(get_member(value, key)) {
        Some(n) => if 0 < n && n <= 65535 {
            return Some(n as u16);
        },
        None => {},
    }
    match text_of(get_member(value, key)) {
        Some(t) => match parse_unsigned(&chars_of(trim_str(t.as_str()).as_str()), 65535) {
            Some(n) => if n > 0 {
                Some(n as u16)
            } else {
                None
            },
            None => None,
        },
        None => None,
    }
}

/// The status of an error frame.
pub fn websocket_error_status(value: &JsonValue) -> (r: Option<u16>)
    ensures
        r == frame_status(*value),
{
    match status_under_exec(value, "status") {
        Some(s) => Some(s),
        None => status_under_exec(value, "status_code"),
    }
}

/// The body that stands for an error frame: its status, its `body` where it
/// has one, and its error (from the body, else from the frame, else a
/// server error naming the status).
pub open spec fn frame_error_body(value: JsonValue, status: u16) -> JsonView {
    let head = seq![("status"@, JsonView::Number(NumberView::PosInt(status as u64)))];
    match field(value, "body"@) {
        Some(body) if field(body, "error"@) is Some => JsonView::Object(
            head + seq![("body"@, json_view(body)), ("error"@, json_view(field(body, "error"@)->Some_0))],
        ),
        _ => {
            let with_body = match field(value, "body"@) {
                Some(body) => head.push(("body"@, json_view(body))),
                None => head,
            };
            match field(value, "error"@) {
                Some(e) => JsonView::Object(with_body.push(("error"@, json_view(e)))),
                None => JsonView::Object(
                    with_body.push(
                        (
                            "error"@,
                            JsonView::Object(
                                seq![
                                    ("type"@, JsonView::Str("server_error"@)),
                                    ("message"@, JsonView::Str("HTTP "@ + decimal_text(status as nat))),
                                ],
                            ),
                        ),
                    ),
                ),
            }
        },
    }
}

/// The body that stands for an error frame.
pub fn build_websocket_error_body(value: &JsonValue, status: u16) -> (r: JsonValue)
    ensures
        json_view(r) == frame_error_body(*value, status),
{
    let mut out: Vec<(String, JsonValue)> = Vec::new();
    push_entry(&mut out, "status", JsonValue::Number(JsonNumber::PosInt(status as u64)));
    match get_member(value, "body") {
        Some(body) => {
            push_entry(&mut out, "body", clone_json(body));
            match get_member(body, "error") {
                Some(e) => {
                    push_entry(&mut out, "error", clone_json(e));
                    proof {
                        if let JsonView::Object(x) = frame_error_body(*value, status) {
                            assert(entries_view(out@) =~= x);
                        }
                    }
                    return JsonValue::Object(out);
                },
                None => {},
            }
        },
        None => {},
    }
    match get_member(value, "error") {
        Some(e) => {
            push_entry(&mut out, "error", clone_json(e));
            proof {
                if let JsonView::Object(x) = frame_error_body(*value, status) {
                    assert(entries_view(out@) =~= x);
                }
            }
            return JsonValue::Object(out);
        },
        None => {},
    }
    let mut err: Vec<(String, JsonValue)> = Vec::new();
    push_entry(&mut err, "type", JsonValue::String(lit("server_error")));
    push_entry(
        &mut err,
        "message",
        JsonValue::String(concat_str("HTTP ", decimal_string(status as u64).as_str())),
    );
    proof {
        assert(entries_view(err@) =~= seq![
            ("type"@, JsonView::Str("server_error"@)),
            ("message"@, JsonView::Str("HTTP "@ + decimal_text(status as nat))),
        ]);
    }
    push_entry(&mut out, "error", JsonValue::Object(err));
    proof {
        if let JsonView::Object(x) = frame_error_body(*value, status) {
            assert(entries_view(out@) =~= x);
        }
    }
    JsonValue::Object(out)
}

/// Whether an error frame names `expected` at one of the places an error
/// code is found: `error.code`, `error.type`, `body.error.code`,
/// `body.error.type`, `code`, `error`.
pub open spec fn frame_error_matches(value: JsonValue, expected: Seq<char>) -> bool {
    ||| text_at_path(value, seq!["error"@, "code"@]) == Some(expected)
    ||| text_at_path(value, seq!["error"@, "type"@]) == Some(expected)
    ||| text_at_path(value, seq!["body"@, "error"@, "code"@]) == Some(expected)
    ||| text_at_path(value, seq!["body"@, "error"@, "type"@]) == Some(expected)
    ||| text_at_path(value, seq!["code"@]) == Some(expected)
    ||| text_at_path(value, seq!["error"@]) == Some(expected)
}

fn names_at(value: &JsonValue, path: &[&str], expected: &str) -> (r: bool)
    ensures
        r == (text_at_path(*value, path_keys(path@)) == Some(expected@)),
{
    match extract_body_string_path(value, path) {
        Some(s) => str_eq(s.as_str(), expected),
        None => false,
    }
}

/// Whether an error frame names `expected` as its error.
pub fn websocket_error_matches(value: &JsonValue, expected: &str) -> (r: bool)
    ensures
        r == frame_error_matches(*value, expected@),
{
    let p1: [&str; 2] = ["error", "code"];
    let p2: [&str; 2] = ["error", "type"];
    let p3: [&str; 3] = ["body", "error", "code"];
    let p4: [&str; 3] = ["body", "error", "type"];
    let p5: [&str; 1] = ["code"];
    let p6: [&str; 1] = ["error"];
    proof {
        assert(path_keys(p1@) =~= seq!["error"@, "code"@]);
        assert(path_keys(p2@) =~= seq!["error"@, "type"@]);
        assert(path_keys(p3@) =~= seq!["body"@, "error"@, "code"@]);
        assert(path_keys(p4@) =~= seq!["body"@, "error"@, "type"@]);
        assert(path_keys(p5@) =~= seq!["code"@]);
        assert(path_keys(p6@) =~= seq!["error"@]);
    }
    names_at(value, p1.as_slice(), expected) || names_at(value, p2.as_slice(), expected) || names_at(
        value,
        p3.as_slice(),
        expected,
    ) || names_at(value, p4.as_slice(), expected) || names_at(value, p5.as_slice(), expected)
        || names_at(value, p6.as_slice(), expected)
}

/// A wait in seconds from a header value: a number, or text that reads as
/// one.
pub open spec fn header_wait(v: JsonView) -> Option<u64> {
    match v {
        JsonView::Number(NumberView::PosInt(u)) => Some(u),
        JsonView::Str(t) => match unsigned_text(trim(t), u64::MAX as int) {
            Some(n) => Some(n as u64),
            None => None,
        },
        _ => None,
    }
}

/// The first wait among headers, in order, whose name is `retry-after` in
/// any case and whose value reads as a wait.
pub open spec fn first_retry_after(headers: Seq<(Seq<char>, JsonView)>) -> Option<u64>
    decreases headers.len(),
{
    if headers.len() == 0 {
        None
    } else {
        match first_retry_after(headers.drop_last()) {
            Some(w) => Some(w),
            None => if eq_ignore_case(headers.last().0, "retry-after"@) {
                header_wait(headers.last().1)
            } else {
                None
            },
        }
    }
}

/// The wait an error frame's headers ask for.
pub open spec fn frame_retry_after_header(value: JsonValue) -> Option<u64> {
    match field(value, "headers"@) {
        Some(JsonValue::Object(entries)) => first_retry_after(entries_view(entries@)),
        _ => None,
    }
}

fn header_wait_exec(v: &JsonValue) -> (r: Option<u64>)
    ensures
        r == header_wait(json_view(*v)),
{
    match v {
        JsonValue::Number(JsonNumber::PosInt(u)) => Some(*u),
        JsonValue::String(t) => parse_unsigned(&chars_of(trim_str(t.as_str()).as_str()), u64::MAX),
        _ => None,
    }
}

/// The wait an error frame's headers ask for.
pub fn parse_websocket_retry_after_header(value: &JsonValue) -> (r: Option<u64>)
    ensures
        r == frame_retry_after_header(*value),
{
    let entries = match get_member(value, "headers") {
        Some(JsonValue::Object(entries)) => entries,
        _ => return None,
    };
    let n: usize = entries.len();
    let mut i: usize = 0;
    let ghost ev = entries_view(entries@);
    proof {
        crate::json::lemma_entries_view(entries@);
    }
    assert(frame_retry_after_header(*value) == first_retry_after(ev));
    while i < n
        invariant
            n == entries@.len(),
            ev == entries_view(entries@),
            frame_retry_after_header(*value) == first_retry_after(ev),
            ev.len() == n,
            forall|j: int| 0 <= j < n ==> #[trigger] ev[j] == (entries@[j].0@, json_view(entries@[j].1)),
            i <= n,
            first_retry_after(ev.take(i as int)) is None,
        decreases n - i,
    {
        proof {
            assert(ev.take(i + 1).drop_last() =~= ev.take(i as int));
            assert(ev.take(i + 1).last() == ev[i as int]);
        }
        if eq_ignore_case_exec(&chars_of(entries[i].0.as_str()), &chars_of("retry-after")) {
            match header_wait_exec(&entries[i].1) {
                Some(w) => {
                    proof {
                        assert(first_retry_after(ev.take(i + 1)) == Some(w));
                        lemma_first_retry_after_prefix(ev, i as int + 1);
                    }
                    return Some(w);
                },
                None => {},
            }
        }
        i = i + 1;
    }
    proof {
        assert(ev.take(n as int) =~= ev);
    }
    None
}

/// A wait found among the first headers is the wait of all of them.
proof fn lemma_first_retry_after_prefix(headers: Seq<(Seq<char>, JsonView)>, k: int)
    requires
        0 <= k <= headers.len(),
        first_retry_after(headers.take(k)) is Some,
    ensures
        first_retry_after(headers) == first_retry_after(headers.take(k)),
    decreases headers.len() - k,
{
    if k < headers.len() {
        assert(headers.take(k + 1).drop_last() =~= headers.take(k));
        lemma_first_retry_after_prefix(headers, k + 1);
    } else {
        assert(headers.take(k) =~= headers);
    }
}

/// An upstream error read from a WebSocket frame.
pub struct WebSocketUpstreamError {
    pub status: u16,
    pub body: String,
    pub category: String,
    /// The wait in seconds, where the error asks for one.
    pub retry_after: Option<u64>,
}

/// The status the error is classified under: the frame's status where it is
/// an HTTP status (100 to 999), else 502.
pub open spec fn classified_status(status: u16) -> u16 {
    if 100 <= status <= 999 {
        status
    } else {
        502
    }
}

/// What an error frame means at time `now`: none unless it is a JSON frame
/// of type `error` with a status; otherwise its status, the text of the body
/// that stands for it, its category (a connection limit, a usage limit, the
/// category of its status and body, or a WebSocket error) and its wait (the
/// usage limit's, else the headers', else zero for a connection limit).
pub open spec fn frame_error(m: WebSocketMessage, now: i64) -> Option<(u16, Seq<char>, Seq<char>, Option<u64>)> {
    match message_value(m) {
        None => None,
        Some(value) => {
            let kind = as_text(field(value, "type"@));
            if !(kind is Some && trim(kind->Some_0) == "error"@) {
                None
            } else {
                match frame_status(value) {
                    None => None,
                    Some(status) => {
                        let body = json_text(frame_error_body(value, status));
                        let code = classified_status(status);
                        let usage = retry_after(code, body, now);
                        let connection = frame_error_matches(value, "websocket_connection_limit_reached"@);
                        let category = if connection {
                            "websocket_connection_limit_reached"@
                        } else if usage is Some || frame_error_matches(value, "usage_limit_reached"@) {
                            "usage_limit_reached"@
                        } else {
                            match error_category(code, body, now) {
                                Some(c) => c,
                                None => "upstream_websocket_error"@,
                            }
                        };
                        let wait = match usage {
                            Some(w) => Some(w),
                            None => match frame_retry_after_header(value) {
                                Some(w) => Some(w),
                                None => if connection {
                                    Some(0u64)
                                } else {
                                    None
                                },
                            },
                        };
                        Some((status, body, category, wait))
                    },
                }
            }
        },
    }
}

/// The error an upstream frame carries, at time `now`.
pub fn parse_websocket_upstream_error_at(message: &WebSocketMessage, now: i64) -> (r: Option<
    WebSocketUpstreamError,
>)
    ensures
        match frame_error(*message, now) {
            Some((status, body, category, wait)) => r matches Some(e) && e.status == status && e.body@
                == body && e.category@ == category && e.retry_after == wait,
            None => r is None,
        },
{
    let value = match websocket_message_value(message) {
        Some(v) => v,
        None => return None,
    };
    match text_of(get_member(&value, "type")) {
        Some(t) => {
            if !str_eq(trim_str(t.as_str()).as_str(), "error") {
                return None;
            }
        },
        None => return None,
    }
    let status = match websocket_error_status(&value) {
        Some(s) => s,
        None => return None,
    };
    let body_value = build_websocket_error_body(&value, status);
    let body = match json_to_string(&body_value) {
        Ok(b) => b,
        Err(e) => e,
    };
    let code: u16 = if 100 <= status && status <= 999 {
        status
    } else {
        502
    };
    let usage = parse_codex_retry_after_at(code, body.as_str(), now);
    let connection = websocket_error_matches(&value, "websocket_connection_limit_reached");
    let category = if connection {
        lit("websocket_connection_limit_reached")
    } else if usage.is_some() || websocket_error_matches(&value, "usage_limit_reached") {
        lit("usage_limit_reached")
    } else {
        match classify_upstream_error_category_at(code, body.as_str(), now) {
            Some(c) => lit(c),
            None => lit("upstream_websocket_error"),
        }
    };
    let wait = match usage {
        Some(w) => Some(w),
        None => match parse_websocket_retry_after_header(&value) {
            Some(w) => Some(w),
            None => if connection {
                Some(0)
            } else {
                None
            },
        },
    };
    Some(WebSocketUpstreamError { status, body, category, retry_after: wait })
}

/// The error an upstream frame carries, now: what `frame_error` gives at the
/// clock's reading.
pub fn parse_websocket_upstream_error(message: &WebSocketMessage) -> (r: Option<WebSocketUpstreamError>)
    ensures
        exists|now: i64|
            match #[trigger] frame_error(*message, now) {
                Some((status, body, category, wait)) => r matches Some(e) && e.status == status
                    && e.body@ == body && e.category@ == category && e.retry_after == wait,
                None => r is None,
            },
{
    let now = crate::clock::now_seconds();
    parse_websocket_upstream_error_at(message, now)
}


/// A failed WebSocket handshake as the gateway reports it.
pub struct WebSocketConnectError {
    pub status: Option<u16>,
    pub message: String,
    pub category: String,
}

/// What a handshake answered with an HTTP status and body means at time
/// `now`: the status, a message with the summary of the body (or the status
/// where the body is blank), and the category of the status and body (else
/// `upstream_websocket`).
pub open spec fn handshake_error(status: u16, body: Seq<char>, now: i64) -> (Option<u16>, Seq<char>, Seq<char>) {
    (
        Some(status),
        if trim(body).len() == 0 {
            "Codex 上游 WebSocket 握手失败: HTTP "@ + decimal_text(status as nat)
        } else {
            "Codex 上游 WebSocket 握手失败: "@ + upstream_error_summary(status, body)
        },
        match error_category(status, body, now) {
            Some(c) => c,
            None => "upstream_websocket"@,
        },
    )
}

/// A handshake answered with an HTTP status and body, at time `now`.
pub fn websocket_connect_error_from_http_response_at(status: u16, body: &str, now: i64) -> (r:
    WebSocketConnectError)
    ensures
        (r.status, r.message@, r.category@) == handshake_error(status, body@, now),
{
    let category = match classify_upstream_error_category_at(status, body, now) {
        Some(c) => lit(c),
        None => lit("upstream_websocket"),
    };
    let message = if chars_of(trim_str(body).as_str()).len() == 0 {
        concat_str("Codex 上游 WebSocket 握手失败: HTTP ", decimal_string(status as u64).as_str())
    } else {
        concat_str("Codex 上游 WebSocket 握手失败: ", summarize_upstream_error(status, body).as_str())
    };
    WebSocketConnectError { status: Some(status), message, category }
}

/// A handshake answered with an HTTP status and body, now: what
/// `handshake_error` gives at the clock's reading.
pub fn websocket_connect_error_from_http_response(status: u16, body: &str) -> (r: WebSocketConnectError)
    ensures
        exists|now: i64| (r.status, r.message@, r.category@) == #[trigger] handshake_error(status, body@, now),
{
    let now = crate::clock::now_seconds();
    let r = websocket_connect_error_from_http_response_at(status, body, now);
    assert((r.status, r.message@, r.category@) == handshake_error(status, body@, now));
    r
}

} // verus!
