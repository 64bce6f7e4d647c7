//! How the gateway reads an upstream failure: whether another account should
//! be tried, what kind of failure it is, when a usage limit resets, and the
//! message and code it reports.
use vstd::prelude::*;
use crate::json::{JsonValue, field, field_of, as_text, as_i64, json_from_text, parse_json_text, get_member, get_member_of, text_of, i64_of};
use crate::text::{
    trim, lower, contains, chars_of, string_of, trim_vec, lower_vec, contains_exec, lit, concat_str,
    copy_string,
};

verus! {

broadcast use vstd::string::group_string_axioms;

/// `body` in ASCII lowercase holds `needle`.
pub open spec fn mentions(body: Seq<char>, needle: Seq<char>) -> bool {
    contains(lower(body), needle)
}

/// The status of a transient upstream failure: 408, 500, 502, 503 or 504.
pub open spec fn transient_status(status: u16) -> bool {
    status == 408 || status == 500 || status == 502 || status == 503 || status == 504
}

/// The body says the account's image generation is not enabled, on a 400,
/// 403 or 422.
pub open spec fn image_capability_error(status: u16, body: Seq<char>) -> bool {
    (status == 400 || status == 403 || status == 422) && (mentions(body, "image generation is not enabled"@)
        || mentions(body, "image_generation is not enabled"@) || (mentions(body, "image_generation"@)
        && mentions(body, "not enabled"@)))
}

/// The body says the account's quota is used up.
pub open spec fn quota_exhausted(body: Seq<char>) -> bool {
    mentions(body, "usage_limit_reached"@) || mentions(body, "limit reached"@) || mentions(
        body,
        "insufficient_quota"@,
    ) || mentions(body, "quota exceeded"@)
}

/// The body says the model is at capacity.
pub open spec fn model_at_capacity(body: Seq<char>) -> bool {
    mentions(body, "selected model is at capacity"@) || mentions(body, "model is at capacity"@)
}

/// Another account is tried after an authentication failure, an image
/// capability failure, a transient failure, or a 429/403 that says the quota
/// is used up or the model is at capacity.
pub open spec fn try_next_account(status: u16, body: Seq<char>) -> bool {
    status == 401 || image_capability_error(status, body) || transient_status(status) || ((status
        == 429 || status == 403) && (quota_exhausted(body) || model_at_capacity(body)))
}

fn mentions_exec(low: &Vec<char>, needle: &str) -> (r: bool)
    ensures
        r == contains(low@, needle@),
{
    contains_exec(low, &chars_of(needle))
}

/// Whether the body says image generation is not enabled for the account.
pub fn is_image_generation_capability_error(status: u16, body: &str) -> (r: bool)
    ensures
        r == image_capability_error(status, body@),
{
    if !(status == 400 || status == 403 || status == 422) {
        return false;
    }
    let low = lower_vec(&chars_of(body));
    mentions_exec(&low, "image generation is not enabled") || mentions_exec(
        &low,
        "image_generation is not enabled",
    ) || (mentions_exec(&low, "image_generation") && mentions_exec(&low, "not enabled"))
}

/// Whether a failed request should move on to the next account.
pub fn should_try_next_account(status: u16, body: &str) -> (r: bool)
    ensures
        r == try_next_account(status, body@),
{
    if status == 401 {
        return true;
    }
    if is_image_generation_capability_error(status, body) {
        return true;
    }
    if status == 408 || status == 500 || status == 502 || status == 503 || status == 504 {
        return true;
    }
    let low = lower_vec(&chars_of(body));
    let quota = mentions_exec(&low, "usage_limit_reached") || mentions_exec(&low, "limit reached")
        || mentions_exec(&low, "insufficient_quota") || mentions_exec(&low, "quota exceeded");
    let capacity = mentions_exec(&low, "selected model is at capacity") || mentions_exec(
        &low,
        "model is at capacity",
    );
    (status == 429 || status == 403) && (quota || capacity)
}

/// Whether a single-account request retries the same account after a status.
pub fn should_retry_single_account_upstream_status(status: u16) -> (r: bool)
    ensures
        r == transient_status(status),
{
    status == 408 || status == 500 || status == 502 || status == 503 || status == 504
}

/// How long a usage-limit response asks to wait, in seconds, at time `now`:
/// for a 429 whose JSON body has `error.type` `usage_limit_reached`, the time
/// until a future `error.resets_at`, else a positive
/// `error.resets_in_seconds`.
pub open spec fn retry_after(status: u16, body: Seq<char>, now: i64) -> Option<u64> {
    if status != 429 || trim(body).len() == 0 {
        None
    } else {
        match json_from_text(body) {
            None => None,
            Some(payload) => {
                let error = field(payload, "error"@);
                if error is None {
                    None
                } else {
                    let kind = as_text(field_of(error, "type"@));
                    if !(kind is Some && trim(kind->Some_0) == "usage_limit_reached"@) {
                        None
                    } else {
                        match as_i64(field_of(error, "resets_at"@)) {
                            Some(at) if at > now => Some((at - now) as u64),
                            _ => match as_i64(field_of(error, "resets_in_seconds"@)) {
                                Some(s) if s > 0 => Some(s as u64),
                                _ => None,
                            },
                        }
                    }
                }
            },
        }
    }
}

/// How long a usage-limit response asks to wait, at time `now`.
pub fn parse_codex_retry_after_at(status: u16, error_body: &str, now: i64) -> (r: Option<u64>)
    ensures
        r == retry_after(status, error_body@, now),
{
    if status != 429 || trim_vec(&chars_of(error_body)).len() == 0 {
        return None;
    }
    let payload = match parse_json_text(error_body) {
        Some(p) => p,
        None => return None,
    };
    let error = get_member(&payload, "error");
    if error.is_none() {
        return None;
    }
    let kind = text_of(get_member_of(error, "type"));
    match kind {
        Some(k) => {
            let t = trim_vec(&chars_of(k.as_str()));
            if !crate::text::seq_eq(&t, &chars_of("usage_limit_reached")) {
                return None;
            }
        },
        None => return None,
    }
    match i64_of(get_member_of(error, "resets_at")) {
        Some(at) => {
            if at > now {
                let delta = (at as i128 - now as i128) as u64;
                return Some(delta);
            }
        },
        None => {},
    }
    match i64_of(get_member_of(error, "resets_in_seconds")) {
        Some(s) => if s > 0 {
            Some(s as u64)
        } else {
            None
        },
        None => None,
    }
}

/// How long a usage-limit response asks to wait, in seconds from now: the
/// wait that `retry_after` gives for the status and body at the clock's
/// reading.
pub fn parse_codex_retry_after(status: u16, error_body: &str) -> (r: Option<u64>)
    ensures
        exists|now: i64| r == #[trigger] retry_after(status, error_body@, now),
        r is Some ==> status == 429,
{
    let now = crate::clock::now_seconds();
    let r = parse_codex_retry_after_at(status, error_body, now);
    assert(r == retry_after(status, error_body@, now));
    r
}

/// The category of an upstream failure at time `now`.
pub open spec fn error_category(status: u16, body: Seq<char>, now: i64) -> Option<Seq<char>> {
    if image_capability_error(status, body) {
        Some("image_generation_not_enabled"@)
    } else if status == 401 {
        Some("auth_unavailable"@)
    } else if retry_after(status, body, now) is Some {
        Some("usage_limit_reached"@)
    } else if mentions(body, "context length"@) || mentions(body, "context_length"@) || mentions(
        body,
        "context_too_large"@,
    ) || mentions(body, "too many tokens"@) {
        Some("context_too_large"@)
    } else if model_at_capacity(body) {
        Some("model_capacity"@)
    } else {
        None
    }
}

/// The category of an upstream failure, at time `now`.
pub fn classify_upstream_error_category_at(status: u16, body: &str, now: i64) -> (r: Option<&'static str>)
    ensures
        match r {
            Some(c) => error_category(status, body@, now) == Some(c@),
            None => error_category(status, body@, now) is None,
        },
{
    if is_image_generation_capability_error(status, body) {
        return Some("image_generation_not_enabled");
    }
    if status == 401 {
        return Some("auth_unavailable");
    }
    if parse_codex_retry_after_at(status, body, now).is_some() {
        return Some("usage_limit_reached");
    }
    let low = lower_vec(&chars_of(body));
    if mentions_exec(&low, "context length") || mentions_exec(&low, "context_length") || mentions_exec(
        &low,
        "context_too_large",
    ) || mentions_exec(&low, "too many tokens") {
        return Some("context_too_large");
    }
    if mentions_exec(&low, "selected model is at capacity") || mentions_exec(&low, "model is at capacity") {
        return Some("model_capacity");
    }
    None
}

/// The category of an upstream failure, now.
pub fn classify_upstream_error_category(status: u16, body: &str) -> (r: Option<&'static str>)
    ensures
        exists|now: i64|
            match r {
                Some(c) => #[trigger] error_category(status, body@, now) == Some(c@),
                None => error_category(status, body@, now) is None,
            },
{
    let now = crate::clock::now_seconds();
    classify_upstream_error_category_at(status, body, now)
}

/// The message says the account cannot generate images.
pub open spec fn image_capability_message(status: Option<u16>, message: Seq<char>) -> bool {
    (status == Some(400u16) || status == Some(403u16) || status == Some(422u16)) && (mentions(
        message,
        "image_generation_not_enabled"@,
    ) || mentions(message, "image generation is not enabled"@) || mentions(
        message,
        "image_generation is not enabled"@,
    ) || (mentions(message, "image_generation"@) && mentions(message, "not enabled"@)) || contains(
        message,
        "未启用图片生成能力"@,
    ))
}

/// Whether a recorded failure says the account cannot generate images.
pub fn is_image_generation_capability_message(status: Option<u16>, message: &str) -> (r: bool)
    ensures
        r == image_capability_message(status, message@),
{
    match status {
        Some(s) => if !(s == 400 || s == 403 || s == 422) {
            return false;
        },
        None => return false,
    }
    let low = lower_vec(&chars_of(message));
    mentions_exec(&low, "image_generation_not_enabled") || mentions_exec(
        &low,
        "image generation is not enabled",
    ) || mentions_exec(&low, "image_generation is not enabled") || (mentions_exec(
        &low,
        "image_generation",
    ) && mentions_exec(&low, "not enabled")) || contains_exec(&chars_of(message), &chars_of("未启用图片生成能力"))
}

/// The message speaks of a quota, a rate limit or a cooldown (or the status
/// is 429).
pub open spec fn quota_or_rate_limit_message(status: Option<u16>, message: Seq<char>) -> bool {
    status == Some(429u16) || mentions(message, "usage_limit_reached"@) || mentions(message, "limit reached"@)
        || mentions(message, "rate limit"@) || mentions(message, "quota"@) || mentions(message, "cooldown"@)
        || mentions(message, "额度"@) || mentions(message, "限流"@) || mentions(message, "冷却"@)
}

/// Whether a failure is about quota, rate limits or cooldown.
pub fn is_quota_or_rate_limit_message(status: Option<u16>, message: &str) -> (r: bool)
    ensures
        r == quota_or_rate_limit_message(status, message@),
{
    let low = lower_vec(&chars_of(message));
    status == Some(429u16) || mentions_exec(&low, "usage_limit_reached") || mentions_exec(
        &low,
        "limit reached",
    ) || mentions_exec(&low, "rate limit") || mentions_exec(&low, "quota") || mentions_exec(
        &low,
        "cooldown",
    ) || mentions_exec(&low, "额度") || mentions_exec(&low, "限流") || mentions_exec(&low, "冷却")
}

/// The code the gateway reports with an error status.
pub open spec fn error_code_for(status: u16) -> Seq<char> {
    if status == 400 {
        "bad_request"@
    } else if status == 401 {
        "unauthorized"@
    } else if status == 403 {
        "forbidden"@
    } else if status == 404 {
        "not_found"@
    } else if status == 405 {
        "method_not_allowed"@
    } else if status == 429 {
        "rate_limited"@
    } else if status == 502 {
        "upstream_unavailable"@
    } else if status == 503 {
        "service_unavailable"@
    } else {
        "codex_local_access_error"@
    }
}

/// The code the gateway reports with an error status.
pub fn gateway_error_code(status: u16) -> (r: &'static str)
    ensures
        r@ == error_code_for(status),
{
    match status {
        400 => "bad_request",
        401 => "unauthorized",
        403 => "forbidden",
        404 => "not_found",
        405 => "method_not_allowed",
        429 => "rate_limited",
        502 => "upstream_unavailable",
        503 => "service_unavailable",
        _ => "codex_local_access_error",
    }
}

/// The trimmed text of a string value, when it is not blank.
pub open spec fn nonblank_text(v: Option<JsonValue>) -> Option<Seq<char>> {
    match as_text(v) {
        Some(t) => if trim(t).len() > 0 {
            Some(trim(t))
        } else {
            None
        },
        None => None,
    }
}

/// The message of a JSON error body: `error.message`, `detail.message`,
/// `message` or `error` as a string, the first that is not blank, trimmed.
pub open spec fn upstream_error_message(body: Seq<char>) -> Option<Seq<char>> {
    match json_from_text(body) {
        None => None,
        Some(v) => {
            let a = nonblank_text(field_of(field(v, "error"@), "message"@));
            let b = nonblank_text(field_of(field(v, "detail"@), "message"@));
            let c = nonblank_text(field(v, "message"@));
            let d = nonblank_text(field(v, "error"@));
            if a is Some {
                a
            } else if b is Some {
                b
            } else if c is Some {
                c
            } else {
                d
            }
        },
    }
}

fn nonblank_text_exec(v: Option<&JsonValue>) -> (r: Option<String>)
    ensures
        match r {
            Some(t) => nonblank_text(
                match v {
                    Some(y) => Some(*y),
                    None => None,
                },
            ) == Some(t@),
            None => nonblank_text(
                match v {
                    Some(y) => Some(*y),
                    None => None,
                },
            ) is None,
        },
{
    match text_of(v) {
        Some(t) => {
            let tt = trim_vec(&chars_of(t.as_str()));
            if tt.len() > 0 {
                Some(string_of(&tt))
            } else {
                None
            }
        },
        None => None,
    }
}

/// The message of a JSON error body, if it has one.
pub fn extract_upstream_error_message(body: &str) -> (r: Option<String>)
    ensures
        match r {
            Some(m) => upstream_error_message(body@) == Some(m@),
            None => upstream_error_message(body@) is None,
        },
{
    let parsed = match parse_json_text(body) {
        Some(v) => v,
        None => return None,
    };
    let a = nonblank_text_exec(get_member_of(get_member(&parsed, "error"), "message"));
    if a.is_some() {
        return a;
    }
    let b = nonblank_text_exec(get_member_of(get_member(&parsed, "detail"), "message"));
    if b.is_some() {
        return b;
    }
    let c = nonblank_text_exec(get_member(&parsed, "message"));
    if c.is_some() {
        return c;
    }
    nonblank_text_exec(get_member(&parsed, "error"))
}

/// Decimal digits of a number.
pub open spec fn decimal_text(n: nat) -> Seq<char>
    decreases n,
{
    if n < 10 {
        seq![(n + 48) as char]
    } else {
        decimal_text(n / 10).push(((n % 10) + 48) as char)
    }
}

/// The decimal text of a number.
pub fn decimal_string(n: u64) -> (r: String)
    ensures
        r@ == decimal_text(n as nat),
    decreases n,
{
    if n < 10 {
        let mut r = String::new();
        r.push(((n as u8) + 48) as char);
        assert(r@ =~= decimal_text(n as nat));
        r
    } else {
        let mut r = decimal_string(n / 10);
        r.push((((n % 10) as u8) + 48) as char);
        assert(r@ =~= decimal_text(n as nat));
        r
    }
}

/// A short account of an upstream failure: the status, then the body's
/// error message, else the trimmed body, else a note that there was none.
pub open spec fn upstream_error_summary(status: u16, body: Seq<char>) -> Seq<char> {
    let detail = match upstream_error_message(body) {
        Some(m) => m,
        None => if trim(body).len() == 0 {
            "上游接口返回状态 "@ + decimal_text(status as nat)
        } else {
            trim(body)
        },
    };
    decimal_text(status as nat) + ": "@ + detail
}

/// A short account of an upstream failure.
pub fn summarize_upstream_error(status: u16, body: &str) -> (r: String)
    ensures
        r@ == upstream_error_summary(status, body@),
{
    let code = decimal_string(status as u64);
    let detail = match extract_upstream_error_message(body) {
        Some(m) => m,
        None => {
            let t = trim_vec(&chars_of(body));
            if t.len() == 0 {
                concat_str("上游接口返回状态 ", code.as_str())
            } else {
                string_of(&t)
            }
        },
    };
    let r = concat_str(concat_str(code.as_str(), ": ").as_str(), detail.as_str());
    assert(r@ =~= upstream_error_summary(status, body@));
    r
}

/// The pause before the next retry of a send, in milliseconds: the base delay
/// times 1, 1, 2, then 4 by attempt, at most the cap.
pub open spec fn retry_delay_ms(attempt: usize, base: u64, cap: u64) -> u64 {
    let multiplier: u64 = if attempt <= 1 {
        1
    } else if attempt == 2 {
        2
    } else {
        4
    };
    if base * multiplier > cap {
        cap
    } else {
        (base * multiplier) as u64
    }
}

/// The pause before retrying a failed send, in milliseconds.
pub fn upstream_send_retry_delay(retry_attempt: usize) -> (r: u64)
    ensures
        r == retry_delay_ms(retry_attempt, 200, 1200),
{
    let multiplier: u64 = if retry_attempt <= 1 {
        1
    } else if retry_attempt == 2 {
        2
    } else {
        4
    };
    let delay = 200 * multiplier;
    if delay > 1200 {
        1200
    } else {
        delay
    }
}

/// The pause before retrying a single account after a transient status, in
/// milliseconds.
pub fn single_account_status_retry_delay(retry_attempt: usize) -> (r: u64)
    ensures
        r == retry_delay_ms(retry_attempt, 300, 1500),
{
    let multiplier: u64 = if retry_attempt <= 1 {
        1
    } else if retry_attempt == 2 {
        2
    } else {
        4
    };
    let delay = 300 * multiplier;
    if delay > 1500 {
        1500
    } else {
        delay
    }
}

} // verus!
