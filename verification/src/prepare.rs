//! Preparing a downstream request for the upstream Responses API: Chat
//! Completions and Images API requests are translated into Responses
//! requests, Responses requests get their model resolved, and other requests
//! pass through; the adapter says how the upstream answer is turned back.
use vstd::prelude::*;
use crate::http::{
    Headers, ParsedRequest, is_images_generations_target, is_images_edits_target,
    is_chat_completions_target, is_responses_target, is_responses_compact_target,
    is_images_generations_request, is_images_edits_request, is_chat_completions_request,
    is_responses_request, is_responses_compact_request,
};
use crate::json::{
    JsonValue, JsonView, json_view, entries_view, view_remove, json_bytes, json_to_vec,
    request_body_json, parse_request_body_json, remove_member,
};
use crate::text::{
    lower, starts_with, eq_ignore_case, eq_ignore_case_exec, chars_of, lower_vec, starts_with_exec,
    lit, concat_str,
};
use crate::images::{
    images_generation, images_edit, build_images_generation_request,
    build_images_edit_request_from_json,
};
use crate::multipart::{images_edit_multipart, build_images_edit_request_from_multipart};
use crate::chat_request::{responses_body, build_responses_body_from_chat_completions};
use crate::upstream_body::{
    alias_rewritten, alias_rewritten_body, rewrite_request_model_alias_value,
    rewrite_request_model_alias,
};
use crate::usage::{stream_requested, is_stream_request};
use crate::codex_body::{codex_body, normalize_responses_body_for_codex};
use crate::http::CodexLocalAccessRequestKind;
use crate::json::{field, as_text, get_member, text_of};
use crate::text::{trim, trim_str, str_eq, copy_string};
use crate::images::image_model_id;
use crate::usage_log::request_kind_is_image;
use crate::collection::ResolvedLocalApiKey;
use crate::json::{NumberView, JsonNumber, push_entry, push_item, items_view};
use crate::text::texts;

verus! {

broadcast use vstd::string::group_string_axioms;

/// How the gateway turns the upstream answer back into what the client asked
/// for.
pub enum GatewayResponseAdapter {
    /// The answer goes back as it came.
    Passthrough { request_is_stream: bool },
    /// The answer becomes a Chat Completions answer.
    ChatCompletions { stream: bool, requested_model: String, original_request_body: Vec<u8> },
    /// The answer becomes an Images API answer.
    Images { stream: bool, response_format: String, stream_prefix: String },
}

/// An adapter by its plain values.
pub enum AdapterView {
    Passthrough(bool),
    ChatCompletions(bool, Seq<char>, Seq<u8>),
    Images(bool, Seq<char>, Seq<char>),
}

/// An adapter's plain values.
pub open spec fn adapter_view(a: GatewayResponseAdapter) -> AdapterView {
    match a {
        GatewayResponseAdapter::Passthrough { request_is_stream } => AdapterView::Passthrough(
            request_is_stream,
        ),
        GatewayResponseAdapter::ChatCompletions { stream, requested_model, original_request_body } =>
            AdapterView::ChatCompletions(stream, requested_model@, original_request_body@),
        GatewayResponseAdapter::Images { stream, response_format, stream_prefix } =>
            AdapterView::Images(stream, response_format@, stream_prefix@),
    }
}

/// A request by its method, target, headers and body.
pub type RequestView = (Seq<char>, Seq<char>, Map<Seq<char>, Seq<char>>, Seq<u8>);

/// A request's method, target, headers and body.
pub open spec fn request_view(r: ParsedRequest) -> RequestView {
    (r.method@, r.target@, r.headers.view(), r.body@)
}

/// The path of the upstream Responses API.
pub open spec fn responses_path() -> Seq<char> {
    "/v1/responses"@
}

/// The headers with `accept` and `content-type` set for a JSON body whose
/// answer is read as `accept`.
pub open spec fn json_headers(headers: Map<Seq<char>, Seq<char>>, accept: Seq<char>) -> Map<
    Seq<char>,
    Seq<char>,
> {
    headers.insert("accept"@, accept).insert("content-type"@, "application/json"@)
}

/// A body without its `stream` member, when it is an object.
pub open spec fn without_stream(v: JsonView) -> JsonView {
    match v {
        JsonView::Object(e) => JsonView::Object(view_remove(e, "stream"@)),
        _ => v,
    }
}

/// An Images API request translated into a Responses request.
pub open spec fn prepared_images(
    req: RequestView,
    built: Result<(JsonView, bool, Seq<char>), Seq<char>>,
    prefix: Seq<char>,
) -> Result<(RequestView, AdapterView), Seq<char>> {
    match built {
        Err(e) => Err(e),
        Ok((b, stream, format)) => Ok(
            (
                (req.0, responses_path(), json_headers(req.2, "text/event-stream"@), json_bytes(b)),
                AdapterView::Images(stream, format, prefix),
            ),
        ),
    }
}

/// The content type of a request, or the empty text.
pub open spec fn content_type_of(headers: Map<Seq<char>, Seq<char>>) -> Seq<char> {
    if headers.contains_key("content-type"@) {
        headers["content-type"@]
    } else {
        ""@
    }
}

/// A request that is neither a Chat Completions nor an Images API request:
/// a Responses request (or compaction) must be a POST with a JSON body, whose
/// model is resolved to its catalog entry and which is brought into the shape
/// Codex takes (a compaction then loses its `stream` member); any other
/// request keeps its body, but for a model that names a catalog entry by
/// another id.
pub open spec fn prepared_passthrough(req: RequestView) -> Result<(RequestView, AdapterView), Seq<char>> {
    let (method, target, headers, body) = req;
    if is_responses_target(target) {
        if !eq_ignore_case(method, "POST"@) {
            Err("responses 仅支持 POST"@)
        } else {
            match request_body_json(body) {
                None => Err("responses 请求体必须是合法 JSON"@),
                Some(v) => {
                    let nb = json_bytes(codex_body(alias_rewritten(json_view(v)).0));
                    let nh = json_headers(headers, "text/event-stream"@);
                    Ok(((method, target, nh, nb), AdapterView::Passthrough(stream_requested(nh, nb))))
                },
            }
        }
    } else if is_responses_compact_target(target) {
        if !eq_ignore_case(method, "POST"@) {
            Err("responses/compact 仅支持 POST"@)
        } else {
            match request_body_json(body) {
                None => Err("responses/compact 请求体必须是合法 JSON"@),
                Some(v) => {
                    let nb = json_bytes(without_stream(codex_body(alias_rewritten(json_view(v)).0)));
                    let nh = json_headers(headers, "application/json"@);
                    Ok(((method, target, nh, nb), AdapterView::Passthrough(stream_requested(nh, nb))))
                },
            }
        }
    } else {
        let nb = match alias_rewritten_body(body) {
            Some(b) => b,
            None => body,
        };
        Ok(((method, target, headers, nb), AdapterView::Passthrough(stream_requested(headers, nb))))
    }
}

/// The prepared request and its adapter, or why the request is refused.
pub open spec fn prepared_request(req: RequestView) -> Result<(RequestView, AdapterView), Seq<char>> {
    let (method, target, headers, body) = req;
    if is_images_generations_target(target) {
        if !eq_ignore_case(method, "POST"@) {
            Err("images/generations 仅支持 POST"@)
        } else {
            match request_body_json(body) {
                None => Err("images/generations 请求体必须是合法 JSON"@),
                Some(v) => prepared_images(req, images_generation(json_view(v)), "image_generation"@),
            }
        }
    } else if is_images_edits_target(target) {
        if !eq_ignore_case(method, "POST"@) {
            Err("images/edits 仅支持 POST"@)
        } else {
            let ct = content_type_of(headers);
            if starts_with(lower(ct), "multipart/form-data"@) {
                prepared_images(req, images_edit_multipart(ct, body), "image_edit"@)
            } else {
                match request_body_json(body) {
                    None => Err("images/edits 请求体必须是合法 JSON"@),
                    Some(v) => prepared_images(req, images_edit(json_view(v)), "image_edit"@),
                }
            }
        }
    } else if !is_chat_completions_target(target) {
        prepared_passthrough(req)
    } else if !eq_ignore_case(method, "POST"@) {
        Err("chat/completions 仅支持 POST"@)
    } else {
        match request_body_json(body) {
            None => Err("chat/completions 请求体必须是合法 JSON"@),
            Some(v) => match responses_body(v) {
                Err(e) => Err(e),
                Ok((b, stream, model)) => Ok(
                    (
                        (method, responses_path(), json_headers(headers, "text/event-stream"@), json_bytes(b)),
                        AdapterView::ChatCompletions(stream, model, body),
                    ),
                ),
            },
        }
    }
}

/// Whether the method is a POST, in any case.
fn is_post(method: &str) -> (r: bool)
    ensures
        r == eq_ignore_case(method@, "POST"@),
{
    eq_ignore_case_exec(&chars_of(method), &chars_of("POST"))
}

/// Sets the headers of a JSON body whose answer is read as `accept`.
fn set_json_headers(headers: &mut Headers, accept: &str)
    requires
        old(headers).wf(),
    ensures
        final(headers).wf(),
        final(headers).view() == json_headers(old(headers).view(), accept@),
{
    headers.insert("accept", accept);
    headers.insert("content-type", "application/json");
}

/// Finishes an Images API request: the Responses body, the headers and the
/// adapter.
fn finish_images(
    mut request: ParsedRequest,
    built: Result<(JsonValue, bool, String), String>,
    prefix: &str,
) -> (r: Result<(ParsedRequest, GatewayResponseAdapter), String>)
    requires
        request.headers.wf(),
    ensures
        match prepared_images(
            request_view(request),
            match built {
                Ok((v, s, f)) => Ok((json_view(v), s, f@)),
                Err(e) => Err(e@),
            },
            prefix@,
        ) {
            Ok((v, a)) => r matches Ok((p, b)) && request_view(p) == v && p.headers.wf()
                && adapter_view(b) == a,
            Err(e) => r matches Err(s) && s@ == e,
        },
{
    let (body_value, stream, response_format) = match built {
        Ok(t) => t,
        Err(e) => return Err(e),
    };
    let bytes = match json_to_vec(&body_value) {
        Ok(b) => b,
        Err(e) => return Err(e),
    };
    request.target = lit("/v1/responses");
    request.body = bytes;
    set_json_headers(&mut request.headers, "text/event-stream");
    Ok((request, GatewayResponseAdapter::Images { stream, response_format, stream_prefix: lit(prefix) }))
}

/// Prepares a request that is neither a Chat Completions nor an Images API
/// request.
fn prepare_passthrough(mut request: ParsedRequest) -> (r: Result<(ParsedRequest, GatewayResponseAdapter), String>)
    requires
        request.headers.wf(),
    ensures
        match prepared_passthrough(request_view(request)) {
            Ok((v, a)) => r matches Ok((p, b)) && request_view(p) == v && p.headers.wf()
                && adapter_view(b) == a,
            Err(e) => r matches Err(s) && s@ == e,
        },
{
    if is_responses_request(request.target.as_str()) {
        if !is_post(request.method.as_str()) {
            return Err(lit("responses 仅支持 POST"));
        }
        let mut body_value = match parse_request_body_json(request.body.as_slice()) {
            Some(v) => v,
            None => return Err(lit("responses 请求体必须是合法 JSON")),
        };
        rewrite_request_model_alias_value(&mut body_value);
        normalize_responses_body_for_codex(&mut body_value);
        request.body = match json_to_vec(&body_value) {
            Ok(b) => b,
            Err(e) => return Err(e),
        };
        set_json_headers(&mut request.headers, "text/event-stream");
    } else if is_responses_compact_request(request.target.as_str()) {
        if !is_post(request.method.as_str()) {
            return Err(lit("responses/compact 仅支持 POST"));
        }
        let mut body_value = match parse_request_body_json(request.body.as_slice()) {
            Some(v) => v,
            None => return Err(lit("responses/compact 请求体必须是合法 JSON")),
        };
        rewrite_request_model_alias_value(&mut body_value);
        normalize_responses_body_for_codex(&mut body_value);
        match &mut body_value {
            JsonValue::Object(entries) => remove_member(entries, "stream"),
            _ => {},
        }
        request.body = match json_to_vec(&body_value) {
            Ok(b) => b,
            Err(e) => return Err(e),
        };
        set_json_headers(&mut request.headers, "application/json");
    } else {
        match rewrite_request_model_alias(request.body.as_slice()) {
            Ok(Some(b)) => {
                request.body = b;
            },
            Ok(None) => {},
            Err(e) => return Err(e),
        }
    }
    let request_is_stream = is_stream_request(&request.headers, request.body.as_slice());
    Ok((request, GatewayResponseAdapter::Passthrough { request_is_stream }))
}

/// Prepares a request for the upstream Responses API and picks the adapter
/// for its answer.
pub fn prepare_gateway_request(mut request: ParsedRequest) -> (r: Result<
    (ParsedRequest, GatewayResponseAdapter),
    String,
>)
    requires
        request.headers.wf(),
    ensures
        match prepared_request(request_view(request)) {
            Ok((v, a)) => r matches Ok((p, b)) && request_view(p) == v && p.headers.wf()
                && adapter_view(b) == a,
            Err(e) => r matches Err(s) && s@ == e,
        },
{
    if is_images_generations_request(request.target.as_str()) {
        if !is_post(request.method.as_str()) {
            return Err(lit("images/generations 仅支持 POST"));
        }
        let body_value = match parse_request_body_json(request.body.as_slice()) {
            Some(v) => v,
            None => return Err(lit("images/generations 请求体必须是合法 JSON")),
        };
        let built = build_images_generation_request(&body_value);
        return finish_images(request, built, "image_generation");
    }
    if is_images_edits_request(request.target.as_str()) {
        if !is_post(request.method.as_str()) {
            return Err(lit("images/edits 仅支持 POST"));
        }
        let content_type = match request.headers.get("content-type") {
            Some(c) => c,
            None => lit(""),
        };
        let built = if starts_with_exec(
            &lower_vec(&chars_of(content_type.as_str())),
            &chars_of("multipart/form-data"),
        ) {
            build_images_edit_request_from_multipart(content_type.as_str(), request.body.as_slice())
        } else {
            let body_value = match parse_request_body_json(request.body.as_slice()) {
                Some(v) => v,
                None => return Err(lit("images/edits 请求体必须是合法 JSON")),
            };
            build_images_edit_request_from_json(&body_value)
        };
        return finish_images(request, built, "image_edit");
    }
    if !is_chat_completions_request(request.target.as_str()) {
        return prepare_passthrough(request);
    }
    if !is_post(request.method.as_str()) {
        return Err(lit("chat/completions 仅支持 POST"));
    }
    let body_value = match parse_request_body_json(request.body.as_slice()) {
        Some(v) => v,
        None => return Err(lit("chat/completions 请求体必须是合法 JSON")),
    };
    let original_request_body = vstd::slice::slice_to_vec(request.body.as_slice());
    let (responses, stream, requested_model) = match build_responses_body_from_chat_completions(
        &body_value,
    ) {
        Ok(t) => t,
        Err(e) => return Err(e),
    };
    request.body = match json_to_vec(&responses) {
        Ok(b) => b,
        Err(e) => return Err(e),
    };
    request.target = lit("/v1/responses");
    set_json_headers(&mut request.headers, "text/event-stream");
    Ok((
        request,
        GatewayResponseAdapter::ChatCompletions { stream, requested_model, original_request_body },
    ))
}


/// What an adapter's request asks for: an image edit or generation for the
/// Images API, text otherwise.
pub open spec fn adapter_request_kind(a: AdapterView) -> CodexLocalAccessRequestKind {
    match a {
        AdapterView::Images(_, _, prefix) => if prefix == "image_edit"@ {
            CodexLocalAccessRequestKind::ImageEdit
        } else {
            CodexLocalAccessRequestKind::ImageGeneration
        },
        _ => CodexLocalAccessRequestKind::Text,
    }
}

/// What a prepared request asks for.
pub fn request_kind_from_adapter(adapter: &GatewayResponseAdapter) -> (r: CodexLocalAccessRequestKind)
    ensures
        r == adapter_request_kind(adapter_view(*adapter)),
{
    match adapter {
        GatewayResponseAdapter::Images { stream_prefix, .. } => {
            if str_eq(stream_prefix.as_str(), "image_edit") {
                CodexLocalAccessRequestKind::ImageEdit
            } else {
                CodexLocalAccessRequestKind::ImageGeneration
            }
        },
        _ => CodexLocalAccessRequestKind::Text,
    }
}

/// The model a request body names, trimmed, unless missing or blank.
pub open spec fn body_model_id(body: Seq<u8>) -> Option<Seq<char>> {
    match request_body_json(body) {
        Some(v) => match as_text(field(v, "model"@)) {
            Some(m) => if trim(m).len() > 0 {
                Some(trim(m))
            } else {
                None
            },
            None => None,
        },
        None => None,
    }
}

/// The model a request body names, trimmed, unless missing or blank.
pub fn extract_request_model_id(body: &[u8]) -> (r: Option<String>)
    ensures
        match r {
            Some(m) => body_model_id(body@) == Some(m@),
            None => body_model_id(body@) is None,
        },
{
    let v = match parse_request_body_json(body) {
        Some(v) => v,
        None => return None,
    };
    match text_of(get_member(&v, "model")) {
        Some(m) => {
            let t = trim_str(m.as_str());
            if chars_of(t.as_str()).len() > 0 {
                Some(t)
            } else {
                None
            }
        },
        None => None,
    }
}

/// The model a request is counted under: the model its body names; for an
/// image request without one, the image model; otherwise the empty text.
pub open spec fn stats_model_for_kind(body: Seq<u8>, kind: CodexLocalAccessRequestKind) -> Seq<char> {
    match body_model_id(body) {
        Some(m) => m,
        None => if kind == CodexLocalAccessRequestKind::ImageGeneration || kind
            == CodexLocalAccessRequestKind::ImageEdit {
            image_model_id()
        } else {
            ""@
        },
    }
}

/// The model a request is counted under, by its kind.
pub fn stats_model_id_for_request_kind(body: &[u8], request_kind: CodexLocalAccessRequestKind) -> (r: String)
    ensures
        r@ == stats_model_for_kind(body@, request_kind),
{
    match extract_request_model_id(body) {
        Some(m) => m,
        None => if request_kind_is_image(request_kind) {
            lit("gpt-image-2")
        } else {
            lit("")
        },
    }
}

/// The model a prepared request is counted under: the model a Chat
/// Completions client asked for, the image model for the Images API, and
/// for any other request the model its body names.
pub open spec fn adapter_stats_model(body: Seq<u8>, a: AdapterView) -> Seq<char> {
    match a {
        AdapterView::ChatCompletions(_, model, _) => model,
        AdapterView::Images(_, _, _) => image_model_id(),
        AdapterView::Passthrough(_) => stats_model_for_kind(body, adapter_request_kind(a)),
    }
}

/// The model a prepared request is counted under.
pub fn stats_model_id_from_adapter(request: &ParsedRequest, adapter: &GatewayResponseAdapter) -> (r: String)
    ensures
        r@ == adapter_stats_model(request.body@, adapter_view(*adapter)),
{
    match adapter {
        GatewayResponseAdapter::ChatCompletions { requested_model, .. } => copy_string(requested_model),
        GatewayResponseAdapter::Images { .. } => lit("gpt-image-2"),
        GatewayResponseAdapter::Passthrough { .. } => {
            let kind = request_kind_from_adapter(adapter);
            stats_model_id_for_request_kind(request.body.as_slice(), kind)
        },
    }
}

/// What the statistics record of a request: its kind, the model it is
/// counted under and the key it came with.
pub struct RequestStatsContext {
    pub request_kind: CodexLocalAccessRequestKind,
    pub model_id: String,
    pub api_key_id: String,
    pub api_key_label: String,
}

/// The statistics context of a prepared request and its key.
pub fn build_request_stats_context(
    request: &ParsedRequest,
    adapter: &GatewayResponseAdapter,
    api_key: &ResolvedLocalApiKey,
) -> (r: RequestStatsContext)
    ensures
        r.request_kind == adapter_request_kind(adapter_view(*adapter)),
        r.model_id@ == adapter_stats_model(request.body@, adapter_view(*adapter)),
        r.api_key_id@ == api_key.id@,
        r.api_key_label@ == api_key.label@,
{
    RequestStatsContext {
        request_kind: request_kind_from_adapter(adapter),
        model_id: stats_model_id_from_adapter(request, adapter),
        api_key_id: copy_string(&api_key.id),
        api_key_label: copy_string(&api_key.label),
    }
}


/// Whether a target asks the gateway itself for its models.
pub open spec fn is_local_models_target(target: Seq<char>) -> bool {
    target == "/v1/models"@ || starts_with(target, "/v1/models?"@)
}

/// Whether a target asks the gateway itself for its models.
pub fn is_local_models_request(target: &str) -> (r: bool)
    ensures
        r == is_local_models_target(target@),
{
    str_eq(target, "/v1/models") || starts_with_exec(&chars_of(target), &chars_of("/v1/models?"))
}

/// A model as the model list shows it.
pub open spec fn model_entry(id: Seq<char>) -> JsonView {
    JsonView::Object(
        seq![
            ("id"@, JsonView::Str(id)),
            ("object"@, JsonView::Str("model"@)),
            ("created"@, JsonView::Number(NumberView::PosInt(0))),
            ("owned_by"@, JsonView::Str("openai"@)),
        ],
    )
}

/// The model list the gateway answers with: each model, in order.
pub open spec fn local_models(ids: Seq<Seq<char>>) -> JsonView {
    JsonView::Object(
        seq![
            ("object"@, JsonView::Str("list"@)),
            ("data"@, JsonView::Array(ids.map_values(|id: Seq<char>| model_entry(id)))),
        ],
    )
}

/// The model list the gateway answers with.
pub fn build_local_models_response(model_ids: &Vec<String>) -> (r: JsonValue)
    ensures
        json_view(r) == local_models(texts(model_ids@)),
{
    let mut data: Vec<JsonValue> = Vec::new();
    let n: usize = model_ids.len();
    let mut i: usize = 0;
    while i < n
        invariant
            n == model_ids@.len(),
            i <= n,
            items_view(data@) == texts(model_ids@.take(i as int)).map_values(|id: Seq<char>| model_entry(id)),
        decreases n - i,
    {
        let mut o: Vec<(String, JsonValue)> = Vec::new();
        push_entry(&mut o, "id", JsonValue::String(copy_string(&model_ids[i])));
        push_entry(&mut o, "object", JsonValue::String(lit("model")));
        push_entry(&mut o, "created", JsonValue::Number(JsonNumber::PosInt(0)));
        push_entry(&mut o, "owned_by", JsonValue::String(lit("openai")));
        proof {
            if let JsonView::Object(e) = model_entry(model_ids@[i as int]@) {
                assert(entries_view(o@) =~= e);
            }
        }
        push_item(&mut data, JsonValue::Object(o));
        assert(texts(model_ids@.take(i + 1)).map_values(|id: Seq<char>| model_entry(id)) =~= texts(
            model_ids@.take(i as int),
        ).map_values(|id: Seq<char>| model_entry(id)).push(model_entry(model_ids@[i as int]@)));
        i = i + 1;
    }
    assert(model_ids@.take(n as int) =~= model_ids@);
    let mut out: Vec<(String, JsonValue)> = Vec::new();
    push_entry(&mut out, "object", JsonValue::String(lit("list")));
    push_entry(&mut out, "data", JsonValue::Array(data));
    proof {
        if let JsonView::Object(e) = local_models(texts(model_ids@)) {
            assert(entries_view(out@) =~= e);
        }
    }
    JsonValue::Object(out)
}


/// A model as the Codex client's model catalog shows it: by its slug,
/// preferring WebSockets.
pub open spec fn client_model_entry(id: Seq<char>) -> JsonView {
    JsonView::Object(seq![("slug"@, JsonView::Str(id)), ("prefer_websockets"@, JsonView::Bool(true))])
}

/// The model catalog the gateway answers the Codex client with.
pub open spec fn client_models(ids: Seq<Seq<char>>) -> JsonView {
    JsonView::Object(seq![("models"@, JsonView::Array(ids.map_values(|id: Seq<char>| client_model_entry(id))))])
}

/// The model catalog the gateway answers the Codex client with.
pub fn build_codex_client_models_response(model_ids: &Vec<String>) -> (r: JsonValue)
    ensures
        json_view(r) == client_models(texts(model_ids@)),
{
    let mut models: Vec<JsonValue> = Vec::new();
    let n: usize = model_ids.len();
    let mut i: usize = 0;
    while i < n
        invariant
            n == model_ids@.len(),
            i <= n,
            items_view(models@) == texts(model_ids@.take(i as int)).map_values(|id: Seq<char>| client_model_entry(id)),
        decreases n - i,
    {
        let mut o: Vec<(String, JsonValue)> = Vec::new();
        push_entry(&mut o, "slug", JsonValue::String(copy_string(&model_ids[i])));
        push_entry(&mut o, "prefer_websockets", JsonValue::Bool(true));
        proof {
            assert(entries_view(o@) =~= client_model_entry(model_ids@[i as int]@)->Object_0);
        }
        push_item(&mut models, JsonValue::Object(o));
        assert(texts(model_ids@.take(i + 1)).map_values(|id: Seq<char>| client_model_entry(id)) =~= texts(
            model_ids@.take(i as int),
        ).map_values(|id: Seq<char>| client_model_entry(id)).push(client_model_entry(model_ids@[i as int]@)));
        i = i + 1;
    }
    assert(model_ids@.take(n as int) =~= model_ids@);
    let mut out: Vec<(String, JsonValue)> = Vec::new();
    push_entry(&mut out, "models", JsonValue::Array(models));
    assert(entries_view(out@) =~= client_models(texts(model_ids@))->Object_0);
    JsonValue::Object(out)
}

} // verus!
