//! Admitting a request at the gateway's door: the method, the target, the
//! client key, whether the service is on, and where the request goes next (a
//! WebSocket session, the model list, a refusal of image requests, or the
//! account pool).
use vstd::prelude::*;
use crate::http::{
    Headers, ParsedRequest, header_value_spec, header_value, proxy_target, normalize_proxy_target,
    target_path, proxy_target_path, is_responses_target, is_responses_request,
    is_images_generations_target, is_images_edits_target, is_images_generations_request,
    is_images_edits_request, local_api_key, extract_local_api_key,
};
use crate::collection::{
    CodexLocalAccessCollection, CodexLocalAccessImageGenerationMode, ResolvedLocalApiKey, resolved_key,
    resolved_view, resolve_collection_api_key,
};
use crate::prepare::{is_local_models_target, is_local_models_request};
use crate::split::{split_char, split_char_exec, pieces};
use crate::text::{
    eq_ignore_case, eq_ignore_case_exec, chars_of, trim, trim_vec, lit, str_eq, starts_with,
    starts_with_exec, copy_string,
};

verus! {

broadcast use vstd::string::group_string_axioms;

/// Where a request goes.
pub enum RouteDecision {
    /// Answer a CORS preflight.
    Options,
    /// Answer with an error.
    Reject { status: u16, status_text: String, message: String },
    /// Close the connection without an answer: the target could not be read.
    Abort { message: String },
    /// Hand the connection to the WebSocket bridge.
    WebSocket { target: String, api_key: ResolvedLocalApiKey },
    /// Answer with the model list.
    Models { target: String, api_key: ResolvedLocalApiKey },
    /// Refuse an Images API request: image generation is disabled.
    ImagesDisabled { target: String, api_key: ResolvedLocalApiKey },
    /// Go on to the model policy, the preparation and the account pool.
    Proceed { target: String, api_key: ResolvedLocalApiKey },
}

/// A resolved key by its values.
pub type KeyView = (Seq<char>, Seq<char>, Option<Seq<char>>, Seq<Seq<char>>, Seq<Seq<char>>);

/// A decision by its plain values.
pub enum RouteView {
    Options,
    Reject(u16, Seq<char>, Seq<char>),
    Abort(Seq<char>),
    WebSocket(Seq<char>, KeyView),
    Models(Seq<char>, KeyView),
    ImagesDisabled(Seq<char>, KeyView),
    Proceed(Seq<char>, KeyView),
}

/// A decision's plain values.
pub open spec fn route_view(r: RouteDecision) -> RouteView {
    match r {
        RouteDecision::Options => RouteView::Options,
        RouteDecision::Reject { status, status_text, message } => RouteView::Reject(status, status_text@, message@),
        RouteDecision::Abort { message } => RouteView::Abort(message@),
        RouteDecision::WebSocket { target, api_key } => RouteView::WebSocket(target@, resolved_view(api_key)),
        RouteDecision::Models { target, api_key } => RouteView::Models(target@, resolved_view(api_key)),
        RouteDecision::ImagesDisabled { target, api_key } => RouteView::ImagesDisabled(target@, resolved_view(api_key)),
        RouteDecision::Proceed { target, api_key } => RouteView::Proceed(target@, resolved_view(api_key)),
    }
}

/// The gateway serves the `/v1/` API and the Codex backend paths.
pub open spec fn supported_target(target: Seq<char>) -> bool {
    let path = target_path(target);
    starts_with(target, "/v1/"@) || path == "/backend-api/codex"@ || starts_with(path, "/backend-api/codex/"@)
}

/// Some comma-separated piece of a text, trimmed, is `upgrade` in any case.
pub open spec fn asks_upgrade(value: Seq<char>) -> bool {
    exists|i: int|
        0 <= i < split_char(value, ',').len() && eq_ignore_case(trim(#[trigger] split_char(value, ',')[i]), "upgrade"@)
}

/// A WebSocket upgrade: `Upgrade: websocket`, a `Connection` that asks for
/// an upgrade, and a WebSocket key.
pub open spec fn websocket_upgrade(headers: Map<Seq<char>, Seq<char>>) -> bool {
    &&& match header_value_spec(headers, "upgrade"@) {
        Some(v) => eq_ignore_case(v, "websocket"@),
        None => false,
    }
    &&& match header_value_spec(headers, "connection"@) {
        Some(v) => asks_upgrade(v),
        None => false,
    }
    &&& header_value_spec(headers, "sec-websocket-key"@) is Some
}

/// Where a request goes, given the collection (if one was created) and
/// whether the service runs.
pub open spec fn route(
    method: Seq<char>,
    target: Seq<char>,
    headers: Map<Seq<char>, Seq<char>>,
    collection: Option<CodexLocalAccessCollection>,
    running: bool,
) -> RouteView {
    if eq_ignore_case(method, "OPTIONS"@) {
        RouteView::Options
    } else if !eq_ignore_case(method, "GET"@) && !eq_ignore_case(method, "POST"@) {
        RouteView::Reject(405, "Method Not Allowed"@, "Only GET and POST are allowed"@)
    } else {
        match proxy_target(target) {
            Err(e) => RouteView::Abort(e),
            Ok(t) => if !supported_target(t) {
                RouteView::Reject(404, "Not Found"@, "Not Found"@)
            } else {
                match local_api_key(headers) {
                    None => RouteView::Reject(401, "Unauthorized"@, "缺少 Authorization Bearer 或 X-API-Key"@),
                    Some(k) => match collection {
                        None => RouteView::Reject(503, "Service Unavailable"@, "本地接入集合尚未创建"@),
                        Some(c) => if !c.enabled || !running {
                            RouteView::Reject(503, "Service Unavailable"@, "本地接入服务未启用"@)
                        } else {
                            match resolved_key(c, k) {
                                None => RouteView::Reject(401, "Unauthorized"@, "本地访问秘钥无效"@),
                                Some(rk) => if websocket_upgrade(headers) {
                                    if !(target_path(t) == "/backend-api/codex/responses"@ || is_responses_target(t)) {
                                        RouteView::Reject(
                                            404,
                                            "Not Found"@,
                                            "WebSocket 仅支持 /backend-api/codex/responses"@,
                                        )
                                    } else {
                                        RouteView::WebSocket(t, rk)
                                    }
                                } else if is_local_models_target(t) {
                                    if c.account_ids@.len() == 0 {
                                        RouteView::Reject(503, "Service Unavailable"@, "本地接入集合暂无账号"@)
                                    } else {
                                        RouteView::Models(t, rk)
                                    }
                                } else if c.image_generation_mode == CodexLocalAccessImageGenerationMode::Disabled
                                    && (is_images_generations_target(t) || is_images_edits_target(t)) {
                                    RouteView::ImagesDisabled(t, rk)
                                } else {
                                    RouteView::Proceed(t, rk)
                                },
                            }
                        },
                    },
                }
            },
        }
    }
}

fn is_supported_proxy_target(target: &str) -> (r: bool)
    ensures
        r == supported_target(target@),
{
    let path = proxy_target_path(target);
    starts_with_exec(&chars_of(target), &chars_of("/v1/")) || str_eq(path.as_str(), "/backend-api/codex")
        || starts_with_exec(&chars_of(path.as_str()), &chars_of("/backend-api/codex/"))
}

fn asks_upgrade_exec(value: &str) -> (r: bool)
    ensures
        r == asks_upgrade(value@),
{
    let parts = split_char_exec(&chars_of(value), ',');
    let n: usize = parts.len();
    let mut i: usize = 0;
    while i < n
        invariant
            n == parts@.len(),
            pieces(parts@) == split_char(value@, ','),
            i <= n,
            forall|j: int| 0 <= j < i ==> !eq_ignore_case(trim(#[trigger] split_char(value@, ',')[j]), "upgrade"@),
        decreases n - i,
    {
        assert(pieces(parts@)[i as int] == parts@[i as int]@);
        if eq_ignore_case_exec(&trim_vec(&parts[i]), &chars_of("upgrade")) {
            return true;
        }
        i = i + 1;
    }
    false
}

/// Whether a request asks to become a WebSocket.
pub fn is_websocket_upgrade_request(request: &ParsedRequest) -> (r: bool)
    requires
        request.headers.wf(),
    ensures
        r == websocket_upgrade(request.headers.view()),
{
    let upgrade = match header_value(&request.headers, "upgrade") {
        Some(v) => eq_ignore_case_exec(&chars_of(v.as_str()), &chars_of("websocket")),
        None => false,
    };
    let connection = match header_value(&request.headers, "connection") {
        Some(v) => asks_upgrade_exec(v.as_str()),
        None => false,
    };
    upgrade && connection && header_value(&request.headers, "sec-websocket-key").is_some()
}

fn reject(status: u16, status_text: &str, message: &str) -> (r: RouteDecision)
    ensures
        route_view(r) == RouteView::Reject(status, status_text@, message@),
{
    RouteDecision::Reject { status, status_text: lit(status_text), message: lit(message) }
}

/// Where a request goes, given the collection (if one was created) and
/// whether the service runs.
pub fn route_request(request: &ParsedRequest, collection: &Option<CodexLocalAccessCollection>, running: bool) -> (r:
    RouteDecision)
    requires
        request.headers.wf(),
    ensures
        route_view(r) == route(request.method@, request.target@, request.headers.view(), *collection, running),
{
    let method = chars_of(request.method.as_str());
    if eq_ignore_case_exec(&method, &chars_of("OPTIONS")) {
        return RouteDecision::Options;
    }
    if !eq_ignore_case_exec(&method, &chars_of("GET")) && !eq_ignore_case_exec(&method, &chars_of("POST")) {
        return reject(405, "Method Not Allowed", "Only GET and POST are allowed");
    }
    let target = match normalize_proxy_target(request.target.as_str()) {
        Ok(t) => t,
        Err(e) => return RouteDecision::Abort { message: e },
    };
    if !is_supported_proxy_target(target.as_str()) {
        return reject(404, "Not Found", "Not Found");
    }
    let key = match extract_local_api_key(&request.headers) {
        Some(k) => k,
        None => return reject(401, "Unauthorized", "缺少 Authorization Bearer 或 X-API-Key"),
    };
    let c = match collection {
        Some(c) => c,
        None => return reject(503, "Service Unavailable", "本地接入集合尚未创建"),
    };
    if !c.enabled || !running {
        return reject(503, "Service Unavailable", "本地接入服务未启用");
    }
    let api_key = match resolve_collection_api_key(c, key.as_str()) {
        Some(k) => k,
        None => return reject(401, "Unauthorized", "本地访问秘钥无效"),
    };
    if is_websocket_upgrade_request(request) {
        let path = proxy_target_path(target.as_str());
        if !str_eq(path.as_str(), "/backend-api/codex/responses") && !is_responses_request(target.as_str()) {
            return reject(404, "Not Found", "WebSocket 仅支持 /backend-api/codex/responses");
        }
        return RouteDecision::WebSocket { target, api_key };
    }
    if is_local_models_request(target.as_str()) {
        if c.account_ids.len() == 0 {
            return reject(503, "Service Unavailable", "本地接入集合暂无账号");
        }
        return RouteDecision::Models { target, api_key };
    }
    let disabled = match c.image_generation_mode {
        CodexLocalAccessImageGenerationMode::Disabled => true,
        _ => false,
    };
    if disabled && (is_images_generations_request(target.as_str()) || is_images_edits_request(target.as_str())) {
        return RouteDecision::ImagesDisabled { target, api_key };
    }
    RouteDecision::Proceed { target, api_key }
}

} // verus!
