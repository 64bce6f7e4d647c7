//! What ties a request to an account and to a prompt cache: the routing hint
//! read from its body, the session it belongs to, and the prompt-cache key
//! that the gateway aligns across headers and body.
use vstd::prelude::*;
use vstd::utf8::encode_utf8;
use crate::collection::ResolvedLocalApiKey;
use crate::digest::{sha1, sha1_bytes, hex_lower, hex_encode};
use crate::http::{
    Headers, ParsedRequest, header_value, header_value_spec, is_responses_target,
    is_responses_compact_target, is_responses_request, is_responses_compact_request,
};
use crate::json::{
    JsonValue, JsonView, field, field_of, as_text, request_body_json, parse_request_body_json,
    get_member, text_of, entries_view, json_view, view_set, set_member, json_to_vec, json_bytes,
};
use crate::models::{resolve_alias, supported_catalog, resolve_supported_model_alias};
use crate::text::{trim, lower, trim_vec, chars_of, string_of, trim_str, trim_lower_str, concat_str, lit};
use crate::usage::or_else;

verus! {

broadcast use vstd::string::group_string_axioms;

/// What a request tells the router before an account is picked.
pub struct RequestRoutingHint {
    pub model_key: String,
    pub previous_response_id: Option<String>,
    pub session_affinity_key: Option<String>,
}

/// The key under which a session is bound to an account.
pub open spec fn binding_key(value: Seq<char>) -> Seq<char> {
    "session:"@ + trim(value)
}

/// The binding key of a session value.
pub fn session_affinity_binding_key(value: &str) -> (r: String)
    ensures
        r@ == binding_key(value@),
{
    concat_str("session:", trim_str(value).as_str())
}

/// The value found by following object keys from a value.
pub open spec fn walk(v: Option<JsonValue>, path: Seq<Seq<char>>) -> Option<JsonValue>
    decreases path.len(),
{
    if path.len() == 0 {
        v
    } else {
        walk(field_of(v, path[0]), path.drop_first())
    }
}

/// The text at the end of a path of keys, trimmed, unless it is missing,
/// not a string, or blank.
pub open spec fn text_at_path(v: JsonValue, path: Seq<Seq<char>>) -> Option<Seq<char>> {
    match as_text(walk(Some(v), path)) {
        Some(t) => if trim(t).len() > 0 {
            Some(trim(t))
        } else {
            None
        },
        None => None,
    }
}

/// The keys of a path, by their texts.
pub open spec fn path_keys(path: Seq<&str>) -> Seq<Seq<char>> {
    path.map_values(|p: &str| p@)
}

/// The non-blank text at a path of keys.
pub fn extract_body_string_path(value: &JsonValue, path: &[&str]) -> (r: Option<String>)
    ensures
        r matches Some(s) ==> text_at_path(*value, path_keys(path@)) == Some(s@),
        r is None ==> text_at_path(*value, path_keys(path@)) is None,
{
    let mut cursor: &JsonValue = value;
    let mut i: usize = 0;
    assert(path_keys(path@).skip(0) =~= path_keys(path@));
    while i < path.len()
        invariant
            i <= path@.len(),
            walk(Some(*value), path_keys(path@)) == walk(Some(*cursor), path_keys(path@).skip(i as int)),
        decreases path@.len() - i,
    {
        let ghost rest = path_keys(path@).skip(i as int);
        proof {
            assert(rest[0] == path@[i as int]@);
            assert(rest.drop_first() =~= path_keys(path@).skip(i + 1));
        }
        match get_member(cursor, path[i]) {
            Some(next) => {
                cursor = next;
            },
            None => {
                proof {
                    let tail = path_keys(path@).skip(i + 1);
                    assert forall|p: Seq<Seq<char>>| #[trigger] walk(None, p) is None by {
                        lemma_walk_none(p);
                    }
                    assert(walk(None, tail) is None);
                }
                return None;
            },
        }
        i = i + 1;
    }
    proof {
        assert(path_keys(path@).skip(i as int) =~= Seq::<Seq<char>>::empty());
    }
    match text_of(Some(cursor)) {
        Some(t) => {
            let tt = trim_vec(&chars_of(t.as_str()));
            if tt.len() == 0 {
                None
            } else {
                Some(string_of(&tt))
            }
        },
        None => None,
    }
}

/// Nothing is found below a missing value.
proof fn lemma_walk_none(p: Seq<Seq<char>>)
    ensures
        walk(None, p) is None,
    decreases p.len(),
{
    if p.len() > 0 {
        lemma_walk_none(p.drop_first());
    }
}

/// A session named by a header: the header's name, `=` and its trimmed
/// value, unless the header is missing or blank.
pub open spec fn header_session(headers: Map<Seq<char>, Seq<char>>, name: Seq<char>) -> Option<Seq<char>> {
    if headers.contains_key(name) && trim(headers[name]).len() > 0 {
        Some(name + "="@ + trim(headers[name]))
    } else {
        None
    }
}

/// A session named by the body: `metadata.user_id`, else `conversation_id`,
/// else `thread_id`, after `body=`.
pub open spec fn body_session(body: Seq<u8>) -> Option<Seq<char>> {
    match request_body_json(body) {
        Some(v) => match or_else(
            text_at_path(v, seq!["metadata"@, "user_id"@]),
            or_else(text_at_path(v, seq!["conversation_id"@]), text_at_path(v, seq!["thread_id"@])),
        ) {
            Some(t) => Some("body="@ + t),
            None => None,
        },
        None => None,
    }
}

/// The session of a request: the first of the headers `session_id`,
/// `x-session-id`, `x-client-request-id` and `x-amp-thread-id` that is set,
/// else the body's.
pub open spec fn session_key(headers: Map<Seq<char>, Seq<char>>, body: Seq<u8>) -> Option<Seq<char>> {
    or_else(
        header_session(headers, "session_id"@),
        or_else(
            header_session(headers, "x-session-id"@),
            or_else(
                header_session(headers, "x-client-request-id"@),
                or_else(header_session(headers, "x-amp-thread-id"@), body_session(body)),
            ),
        ),
    )
}

/// The session named by one header.
fn header_session_exec(headers: &Headers, name: &str) -> (r: Option<String>)
    requires
        headers.wf(),
    ensures
        r matches Some(s) ==> header_session(headers.view(), name@) == Some(s@),
        r is None ==> header_session(headers.view(), name@) is None,
{
    match headers.get(name) {
        Some(v) => {
            let t = trim_str(v.as_str());
            if chars_of(t.as_str()).len() == 0 {
                None
            } else {
                let head = concat_str(name, "=");
                Some(concat_str(head.as_str(), t.as_str()))
            }
        },
        None => None,
    }
}

/// The session named by the body.
fn body_session_exec(body: &[u8]) -> (r: Option<String>)
    ensures
        r matches Some(s) ==> body_session(body@) == Some(s@),
        r is None ==> body_session(body@) is None,
{
    let v = match parse_request_body_json(body) {
        Some(v) => v,
        None => return None,
    };
    let p1: [&str; 2] = ["metadata", "user_id"];
    let p2: [&str; 1] = ["conversation_id"];
    let p3: [&str; 1] = ["thread_id"];
    proof {
        assert(path_keys(p1@) =~= seq!["metadata"@, "user_id"@]);
        assert(path_keys(p2@) =~= seq!["conversation_id"@]);
        assert(path_keys(p3@) =~= seq!["thread_id"@]);
    }
    let found = match extract_body_string_path(&v, &p1) {
        Some(t) => Some(t),
        None => match extract_body_string_path(&v, &p2) {
            Some(t) => Some(t),
            None => extract_body_string_path(&v, &p3),
        },
    };
    match found {
        Some(t) => Some(concat_str("body=", t.as_str())),
        None => None,
    }
}

/// The session a request belongs to.
pub fn extract_session_affinity_key(request: &ParsedRequest) -> (r: Option<String>)
    requires
        request.headers.wf(),
    ensures
        r matches Some(s) ==> session_key(request.headers.view(), request.body@) == Some(s@),
        r is None ==> session_key(request.headers.view(), request.body@) is None,
{
    match header_session_exec(&request.headers, "session_id") {
        Some(s) => return Some(s),
        None => {},
    }
    match header_session_exec(&request.headers, "x-session-id") {
        Some(s) => return Some(s),
        None => {},
    }
    match header_session_exec(&request.headers, "x-client-request-id") {
        Some(s) => return Some(s),
        None => {},
    }
    match header_session_exec(&request.headers, "x-amp-thread-id") {
        Some(s) => return Some(s),
        None => {},
    }
    body_session_exec(request.body.as_slice())
}

/// The model a body asks for, as routing keys it: resolved to its catalog
/// entry, trimmed and lowercased; empty when the body names none.
pub open spec fn hint_model_key(body: Option<JsonValue>) -> Seq<char> {
    match body {
        Some(v) => match as_text(field(v, "model"@)) {
            Some(m) => lower(trim(resolve_alias(m, supported_catalog(Seq::empty())))),
            None => Seq::empty(),
        },
        None => Seq::empty(),
    }
}

/// The response a body continues: `previous_response_id`, trimmed, unless
/// missing or blank.
pub open spec fn hint_previous_response(body: Option<JsonValue>) -> Option<Seq<char>> {
    match body {
        Some(v) => match as_text(field(v, "previous_response_id"@)) {
            Some(p) => if trim(p).len() > 0 {
                Some(trim(p))
            } else {
                None
            },
            None => None,
        },
        None => None,
    }
}

/// What a request tells the router.
pub fn build_request_routing_hint(request: &ParsedRequest) -> (r: RequestRoutingHint)
    requires
        request.headers.wf(),
    ensures
        r.model_key@ == hint_model_key(request_body_json(request.body@)),
        r.previous_response_id matches Some(p) ==> hint_previous_response(
            request_body_json(request.body@),
        ) == Some(p@),
        r.previous_response_id is None ==> hint_previous_response(
            request_body_json(request.body@),
        ) is None,
        r.session_affinity_key matches Some(s) ==> session_key(request.headers.view(), request.body@)
            == Some(s@),
        r.session_affinity_key is None ==> session_key(request.headers.view(), request.body@) is None,
{
    let session_affinity_key = extract_session_affinity_key(request);
    let body = match parse_request_body_json(request.body.as_slice()) {
        Some(b) => b,
        None => {
            return RequestRoutingHint {
                model_key: String::new(),
                previous_response_id: None,
                session_affinity_key,
            };
        },
    };
    let model_key = match text_of(get_member(&body, "model")) {
        Some(m) => {
            let resolved = resolve_supported_model_alias(m.as_str());
            trim_lower_str(resolved.as_str())
        },
        None => String::new(),
    };
    let previous_response_id = match text_of(get_member(&body, "previous_response_id")) {
        Some(p) => {
            let t = trim_str(p.as_str());
            if chars_of(t.as_str()).len() == 0 {
                None
            } else {
                Some(t)
            }
        },
        None => None,
    };
    RequestRoutingHint { model_key, previous_response_id, session_affinity_key }
}

/// The 16 bytes of a name-based UUID taken from a digest: its first 16
/// bytes, with version 5 set in byte 6 and the RFC 4122 variant in byte 8.
pub open spec fn uuid_bytes(d: Seq<u8>) -> Seq<u8> {
    d.take(16).update(6, (d[6] & 0x0f) | 0x50).update(8, (d[8] & 0x3f) | 0x80)
}

/// The hyphenated lowercase text of 16 UUID bytes.
pub open spec fn uuid_text(b: Seq<u8>) -> Seq<char> {
    hex_lower(b.subrange(0, 4)) + "-"@ + hex_lower(b.subrange(4, 6)) + "-"@ + hex_lower(
        b.subrange(6, 8),
    ) + "-"@ + hex_lower(b.subrange(8, 10)) + "-"@ + hex_lower(b.subrange(10, 16))
}

/// The UUID that a text always maps to: the SHA-1 digest of its UTF-8 bytes,
/// marked as version 5.
pub open spec fn stable_uuid(text: Seq<char>) -> Seq<char> {
    uuid_text(uuid_bytes(sha1(encode_utf8(text))))
}

/// Copies `b[from..to]`.
fn byte_range(b: &Vec<u8>, from: usize, to: usize) -> (r: Vec<u8>)
    requires
        from <= to <= b@.len(),
    ensures
        r@ == b@.subrange(from as int, to as int),
{
    let mut r: Vec<u8> = Vec::new();
    let mut i = from;
    while i < to
        invariant
            from <= i <= to <= b@.len(),
            r@ =~= b@.subrange(from as int, i as int),
        decreases to - i,
    {
        r.push(b[i]);
        i = i + 1;
    }
    r
}

/// The name-based UUID of a text.
pub fn stable_uuid_from_text(value: &str) -> (r: String)
    ensures
        r@ == stable_uuid(value@),
{
    let digest = sha1_bytes(value.as_bytes());
    let mut bytes = byte_range(&digest, 0, 16);
    let b6 = (bytes[6] & 0x0f) | 0x50;
    bytes.set(6, b6);
    let b8 = (bytes[8] & 0x3f) | 0x80;
    bytes.set(8, b8);
    proof {
        assert(bytes@ =~= uuid_bytes(digest@));
    }
    let mut out = hex_encode(&byte_range(&bytes, 0, 4));
    out = concat_str(out.as_str(), "-");
    out = concat_str(out.as_str(), hex_encode(&byte_range(&bytes, 4, 6)).as_str());
    out = concat_str(out.as_str(), "-");
    out = concat_str(out.as_str(), hex_encode(&byte_range(&bytes, 6, 8)).as_str());
    out = concat_str(out.as_str(), "-");
    out = concat_str(out.as_str(), hex_encode(&byte_range(&bytes, 8, 10)).as_str());
    out = concat_str(out.as_str(), "-");
    out = concat_str(out.as_str(), hex_encode(&byte_range(&bytes, 10, 16)).as_str());
    out
}

/// The prompt-cache key a key falls back to: the UUID of
/// `agtools:codex:prompt-cache:` and the key's id.
pub open spec fn fallback_cache_key(key_id: Seq<char>) -> Seq<char> {
    stable_uuid("agtools:codex:prompt-cache:"@ + key_id)
}

/// The fallback prompt-cache key of a client key.
pub fn stable_prompt_cache_key(api_key: &ResolvedLocalApiKey) -> (r: String)
    ensures
        r@ == fallback_cache_key(api_key.id@),
{
    let text = concat_str("agtools:codex:prompt-cache:", api_key.id.as_str());
    stable_uuid_from_text(text.as_str())
}

/// A body's own `prompt_cache_key`, trimmed, unless missing or blank.
pub open spec fn body_cache_key(v: JsonValue) -> Option<Seq<char>> {
    match as_text(field(v, "prompt_cache_key"@)) {
        Some(k) => if trim(k).len() > 0 {
            Some(trim(k))
        } else {
            None
        },
        None => None,
    }
}

/// A body's own prompt-cache key.
pub fn extract_prompt_cache_key_from_value(value: &JsonValue) -> (r: Option<String>)
    ensures
        r matches Some(s) ==> body_cache_key(*value) == Some(s@),
        r is None ==> body_cache_key(*value) is None,
{
    match text_of(get_member(value, "prompt_cache_key")) {
        Some(k) => {
            let t = trim_str(k.as_str());
            if chars_of(t.as_str()).len() == 0 {
                None
            } else {
                Some(t)
            }
        },
        None => None,
    }
}

/// The prompt-cache key of a request: the body's, else the `session_id`
/// header's, else the client key's fallback.
pub open spec fn cache_key(
    headers: Map<Seq<char>, Seq<char>>,
    body: Option<JsonValue>,
    key_id: Seq<char>,
) -> Seq<char> {
    match body {
        Some(v) if body_cache_key(v) is Some => body_cache_key(v).unwrap(),
        _ => match header_value_spec(headers, "session_id"@) {
            Some(s) => s,
            None => fallback_cache_key(key_id),
        },
    }
}

/// The prompt-cache key of a request.
pub fn resolve_prompt_cache_key(
    headers: &Headers,
    body_value: Option<&JsonValue>,
    api_key: &ResolvedLocalApiKey,
) -> (r: String)
    requires
        headers.wf(),
    ensures
        r@ == cache_key(
            headers.view(),
            match body_value {
                Some(v) => Some(*v),
                None => None,
            },
            api_key.id@,
        ),
{
    match body_value {
        Some(v) => match extract_prompt_cache_key_from_value(v) {
            Some(k) => return k,
            None => {},
        },
        None => {},
    }
    match header_value(headers, "session_id") {
        Some(s) => s,
        None => stable_prompt_cache_key(api_key),
    }
}

/// The requests whose prompt cache the gateway aligns: Responses requests,
/// compact or not.
pub open spec fn aligned_target(target: Seq<char>) -> bool {
    is_responses_target(target) || is_responses_compact_target(target)
}

/// The prompt-cache key of a request, for a client key's id.
pub open spec fn request_cache_key(request: ParsedRequest, key_id: Seq<char>) -> Seq<char> {
    cache_key(request.headers.view(), request_body_json(request.body@), key_id)
}

/// The body that carries the key: an object body with `prompt_cache_key`
/// set, serialised; none for a body that is not a JSON object.
pub open spec fn aligned_body(body: Seq<u8>, key: Seq<char>) -> Option<Seq<u8>> {
    match request_body_json(body) {
        Some(JsonValue::Object(entries)) => Some(
            json_bytes(
                JsonView::Object(view_set(entries_view(entries@), "prompt_cache_key"@, JsonView::Str(key))),
            ),
        ),
        _ => None,
    }
}

/// Aligns a Responses request on one prompt-cache key: the key goes into
/// the `session_id` and `conversation_id` headers and, where the body is an
/// object, into its `prompt_cache_key`. Other requests are left alone and
/// give `None`.
pub fn align_codex_prompt_cache(request: &mut ParsedRequest, api_key: &ResolvedLocalApiKey) -> (r:
    Result<Option<String>, String>)
    requires
        old(request).headers.wf(),
    ensures
        final(request).headers.wf(),
        final(request).method == old(request).method,
        final(request).target == old(request).target,
        !aligned_target(old(request).target@) ==> r == Ok::<Option<String>, String>(None)
            && *final(request) == *old(request),
        aligned_target(old(request).target@) ==> final(request).headers.view()
            == old(request).headers.view().insert("session_id"@, request_cache_key(*old(request), api_key.id@)).insert(
            "conversation_id"@,
            request_cache_key(*old(request), api_key.id@),
        ),
        aligned_target(old(request).target@) ==> match r {
            Ok(Some(s)) => s@ == request_cache_key(*old(request), api_key.id@) && match aligned_body(
                old(request).body@,
                s@,
            ) {
                Some(b) => final(request).body@ == b,
                None => final(request).body@ == old(request).body@,
            },
            Ok(None) => false,
            Err(_) => aligned_body(old(request).body@, request_cache_key(*old(request), api_key.id@))
                is Some && final(request).body@ == old(request).body@,
        },
{
    if !(is_responses_request(request.target.as_str()) || is_responses_compact_request(
        request.target.as_str(),
    )) {
        return Ok(None);
    }
    let body_value = parse_request_body_json(request.body.as_slice());
    let session_id = resolve_prompt_cache_key(
        &request.headers,
        match &body_value {
            Some(v) => Some(v),
            None => None,
        },
        api_key,
    );
    request.headers.insert("session_id", session_id.as_str());
    request.headers.insert("conversation_id", session_id.as_str());
    match body_value {
        Some(JsonValue::Object(mut entries)) => {
            set_member(&mut entries, "prompt_cache_key", JsonValue::String(lit(session_id.as_str())));
            let updated = JsonValue::Object(entries);
            match json_to_vec(&updated) {
                Ok(bytes) => {
                    request.body = bytes;
                },
                Err(e) => {
                    return Err(concat_str("序列化 prompt_cache_key 请求体失败: ", e.as_str()));
                },
            }
        },
        _ => {},
    }
    Ok(Some(session_id))
}

} // verus!
