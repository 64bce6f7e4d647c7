//! Talking to the official Codex app-server over its line protocol: the
//! request lines sent to it and what each reply line means for a request.
use vstd::prelude::*;
use crate::json::{
    JsonValue, JsonView, field, as_i64, json_view, json_text, parse_json_text, json_from_text,
    get_member, i64_of, json_to_string, push_entry, entries_view, items_view,
};
use crate::chat_payload::{signed_decimal, signed_decimal_string, i64_number, i64_value};
use crate::text::{lit, concat_str};

verus! {

broadcast use vstd::string::group_string_axioms;

/// What a reply line means for the request being waited on.
pub enum AppServerReply {
    /// The line is not the request's reply: wait for the next.
    Pending,
    /// The request succeeded.
    Done,
    /// The request failed, with the message.
    Failed(String),
}

/// A reply by its plain values.
pub enum ReplyView {
    Pending,
    Done,
    Failed(Seq<char>),
}

pub open spec fn reply_view(r: AppServerReply) -> ReplyView {
    match r {
        AppServerReply::Pending => ReplyView::Pending,
        AppServerReply::Done => ReplyView::Done,
        AppServerReply::Failed(m) => ReplyView::Failed(m@),
    }
}

/// What a parsed reply line means for request `id`: a line that does not
/// parse, or answers another request, is passed over; an `error` fails the
/// request with that error written out; a `result` completes it; a reply
/// with neither fails for want of a result.
pub open spec fn reply_for(line: Option<JsonValue>, id: i64) -> ReplyView {
    match line {
        None => ReplyView::Pending,
        Some(v) => if as_i64(field(v, "id"@)) != Some(id) {
            ReplyView::Pending
        } else {
            match field(v, "error"@) {
                Some(e) => ReplyView::Failed(
                    "官方 app-server 返回错误 (id="@ + signed_decimal(id as int) + "): "@ + json_text(json_view(e)),
                ),
                None => if field(v, "result"@) is Some {
                    ReplyView::Done
                } else {
                    ReplyView::Failed(
                        "官方 app-server 响应缺少 result (id="@ + signed_decimal(id as int) + "): "@ + json_text(
                            json_view(v),
                        ),
                    )
                },
            }
        },
    }
}

/// What a reply line of the app-server means for request `request_id`.
pub fn app_server_reply(line: &str, request_id: i64) -> (r: AppServerReply)
    ensures
        reply_view(r) == reply_for(json_from_text(line@), request_id),
{
    let value = match parse_json_text(line) {
        Some(v) => v,
        None => return AppServerReply::Pending,
    };
    match i64_of(get_member(&value, "id")) {
        Some(id) => if id != request_id {
            return AppServerReply::Pending;
        },
        None => return AppServerReply::Pending,
    }
    let id_text = signed_decimal_string(request_id);
    if let Some(error) = get_member(&value, "error") {
        let written = match json_to_string(error) {
            Ok(s) => s,
            Err(e) => e,
        };
        let head = concat_str(concat_str("官方 app-server 返回错误 (id=", id_text.as_str()).as_str(), "): ");
        return AppServerReply::Failed(concat_str(head.as_str(), written.as_str()));
    }
    if get_member(&value, "result").is_some() {
        return AppServerReply::Done;
    }
    let written = match json_to_string(&value) {
        Ok(s) => s,
        Err(e) => e,
    };
    let head = concat_str(concat_str("官方 app-server 响应缺少 result (id=", id_text.as_str()).as_str(), "): ");
    AppServerReply::Failed(concat_str(head.as_str(), written.as_str()))
}

/// The parameters of the `initialize` request: the client's name and
/// version, and no capabilities.
pub open spec fn initialize_params(version: Seq<char>) -> JsonView {
    JsonView::Object(
        seq![
            (
                "clientInfo"@,
                JsonView::Object(
                    seq![("name"@, JsonView::Str("cockpit-tools"@)), ("version"@, JsonView::Str(version))],
                ),
            ),
            ("capabilities"@, JsonView::Null),
        ],
    )
}

/// The parameters of the `thread/list` request: the most recently updated
/// thread, of any provider and source, not archived.
pub open spec fn thread_list_params() -> JsonView {
    JsonView::Object(
        seq![
            ("cursor"@, JsonView::Null),
            ("limit"@, i64_number(1)),
            ("sortKey"@, JsonView::Str("updated_at"@)),
            ("sortDirection"@, JsonView::Str("desc"@)),
            ("modelProviders"@, JsonView::Null),
            ("sourceKinds"@, JsonView::Array(Seq::empty())),
            ("archived"@, JsonView::Bool(false)),
        ],
    )
}

/// A request: its method, id and parameters.
pub open spec fn app_server_request(method: Seq<char>, id: i64, params: JsonView) -> JsonView {
    JsonView::Object(seq![("method"@, JsonView::Str(method)), ("id"@, i64_number(id)), ("params"@, params)])
}

/// The parameters of the `initialize` request.
pub fn build_initialize_params(version: &str) -> (r: JsonValue)
    ensures
        json_view(r) == initialize_params(version@),
{
    let mut info: Vec<(String, JsonValue)> = Vec::new();
    push_entry(&mut info, "name", JsonValue::String(lit("cockpit-tools")));
    push_entry(&mut info, "version", JsonValue::String(lit(version)));
    let mut params: Vec<(String, JsonValue)> = Vec::new();
    push_entry(&mut params, "clientInfo", JsonValue::Object(info));
    push_entry(&mut params, "capabilities", JsonValue::Null);
    proof {
        assert(entries_view(info@) =~= seq![
            ("name"@, JsonView::Str("cockpit-tools"@)),
            ("version"@, JsonView::Str(version@)),
        ]);
        assert(entries_view(params@) =~= initialize_params(version@)->Object_0);
    }
    JsonValue::Object(params)
}

/// The parameters of the `thread/list` request.
pub fn build_thread_list_params() -> (r: JsonValue)
    ensures
        json_view(r) == thread_list_params(),
{
    let mut params: Vec<(String, JsonValue)> = Vec::new();
    push_entry(&mut params, "cursor", JsonValue::Null);
    push_entry(&mut params, "limit", i64_value(1));
    push_entry(&mut params, "sortKey", JsonValue::String(lit("updated_at")));
    push_entry(&mut params, "sortDirection", JsonValue::String(lit("desc")));
    push_entry(&mut params, "modelProviders", JsonValue::Null);
    push_entry(&mut params, "sourceKinds", JsonValue::Array(Vec::new()));
    push_entry(&mut params, "archived", JsonValue::Bool(false));
    proof {
        assert(items_view(Seq::<JsonValue>::empty()) =~= Seq::<JsonView>::empty());
        assert(entries_view(params@) =~= thread_list_params()->Object_0);
    }
    JsonValue::Object(params)
}

/// The line that sends a request: the request written out by `serde_json`.
pub fn app_server_request_line(method: &str, id: i64, params: JsonValue) -> (r: String)
    ensures
        r@ == json_text(app_server_request(method@, id, json_view(params))),
{
    let mut request: Vec<(String, JsonValue)> = Vec::new();
    let ghost p = json_view(params);
    push_entry(&mut request, "method", JsonValue::String(lit(method)));
    push_entry(&mut request, "id", i64_value(id));
    push_entry(&mut request, "params", params);
    let value = JsonValue::Object(request);
    proof {
        assert(entries_view(request@) =~= app_server_request(method@, id, p)->Object_0);
    }
    match json_to_string(&value) {
        Ok(s) => s,
        Err(e) => e,
    }
}

} // verus!
