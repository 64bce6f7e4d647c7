//! Codex quota: reading the usage windows into a quota, the error codes of a
//! failed refresh, and when the subscription status is asked for again.
use vstd::prelude::*;
use crate::account::{CodexAccount, CodexQuota, CodexQuotaErrorInfo};
use crate::clock::{rfc3339_seconds, parse_rfc3339_seconds};
use crate::json::{
    JsonValue, field, field_of, as_text, json_from_text, json_from_bytes, parse_json_text, parse_json_bytes,
    get_member, get_member_of, text_of,
};
use crate::errors::{decimal_text, decimal_string};
use crate::text::{
    trim, find, contains, occurs_at, is_ws, all_digits, decimal_value, chars_of, string_of, trim_vec, trim_str,
    find_exec, is_ws_char, all_digits_exec, parse_decimal, copy_opt_string, opt_string_text,
    opt_text, sub_vec, lemma_decimal_nonneg, concat_str,
};

verus! {

broadcast use vstd::string::group_string_axioms;

/// How long a failed subscription query waits before the next one, in seconds.
pub const SUBSCRIPTION_RETRY_INTERVAL_SECONDS: i64 = 1800;

/// A quota as fetched, with the plan type the usage endpoint reported.
#[derive(Debug, Clone)]
pub struct FetchQuotaResult {
    pub quota: CodexQuota,
    pub plan_type: Option<String>,
}

/// Options of a quota refresh.
#[derive(Debug, Clone, Copy)]
pub struct RefreshQuotaOptions {
    pub force_subscription_refresh: bool,
}

impl Default for RefreshQuotaOptions {
    fn default() -> (r: RefreshQuotaOptions)
        ensures
            !r.force_subscription_refresh,
    {
        RefreshQuotaOptions { force_subscription_refresh: false }
    }
}

/// A usage window (the five-hour or the weekly one).
#[derive(Debug, Clone, Copy)]
pub struct WindowInfo {
    pub used_percent: Option<i32>,
    pub limit_window_seconds: Option<i64>,
    pub reset_after_seconds: Option<i64>,
    pub reset_at: Option<i64>,
}

/// The rate-limit block of a usage response.
#[derive(Debug, Clone, Copy)]
pub struct RateLimitInfo {
    pub allowed: Option<bool>,
    pub limit_reached: Option<bool>,
    pub primary_window: Option<WindowInfo>,
    pub secondary_window: Option<WindowInfo>,
}

/// A usage response.
#[derive(Debug, Clone)]
pub struct UsageResponse {
    pub plan_type: Option<String>,
    pub rate_limit: Option<RateLimitInfo>,
    pub code_review_rate_limit: Option<RateLimitInfo>,
}

/// The remaining percentage of a window: 100 minus the used percentage
/// clamped to 0..=100 (a missing one counts as 0).
pub open spec fn remaining_percentage(w: WindowInfo) -> int {
    let used: int = match w.used_percent {
        Some(u) => u as int,
        None => 0,
    };
    100 - (if used < 0 {
        0
    } else if used > 100 {
        100
    } else {
        used
    })
}

/// The window's length in whole minutes, rounded up; none for a missing or
/// non-positive length.
pub open spec fn window_minutes(w: WindowInfo) -> Option<int> {
    match w.limit_window_seconds {
        Some(s) => if s <= 0 {
            None
        } else {
            Some((s + 59) / 60)
        },
        None => None,
    }
}

/// When the window resets: its `reset_at`, else `now` plus a non-negative
/// `reset_after_seconds` (saturating at the end of time).
pub open spec fn reset_time(w: WindowInfo, now: i64) -> Option<int> {
    match w.reset_at {
        Some(at) => Some(at as int),
        None => match w.reset_after_seconds {
            Some(after) => if after < 0 {
                None
            } else if now + after > i64::MAX {
                Some(i64::MAX as int)
            } else {
                Some(now + after)
            },
            None => None,
        },
    }
}

/// The remaining percentage of a window.
pub fn normalize_remaining_percentage(window: &WindowInfo) -> (r: i32)
    ensures
        r == remaining_percentage(*window),
{
    let used = match window.used_percent {
        Some(u) => u,
        None => 0,
    };
    let clamped = if used < 0 {
        0
    } else if used > 100 {
        100
    } else {
        used
    };
    100 - clamped
}

/// The window's length in minutes, rounded up.
pub fn normalize_window_minutes(window: &WindowInfo) -> (r: Option<i64>)
    ensures
        match r {
            Some(m) => window_minutes(*window) == Some(m as int),
            None => window_minutes(*window) is None,
        },
{
    match window.limit_window_seconds {
        Some(s) => {
            if s <= 0 {
                None
            } else {
                let whole = s / 60;
                let m = if s % 60 == 0 {
                    whole
                } else {
                    whole + 1
                };
                assert((s + 59) / 60 == m) by (nonlinear_arith)
                    requires
                        s > 0,
                        whole == s / 60,
                        s % 60 == 0 ==> m == whole,
                        s % 60 != 0 ==> m == whole + 1,
                ;
                Some(m)
            }
        },
        None => None,
    }
}

/// When the window resets, counted from `now`.
pub fn normalize_reset_time(window: &WindowInfo, now: i64) -> (r: Option<i64>)
    ensures
        match r {
            Some(t) => reset_time(*window, now) == Some(t as int),
            None => reset_time(*window, now) is None,
        },
{
    match window.reset_at {
        Some(at) => Some(at),
        None => match window.reset_after_seconds {
            Some(after) => {
                if after < 0 {
                    None
                } else if now > 0 && after > i64::MAX - now {
                    Some(i64::MAX)
                } else {
                    Some(now + after)
                }
            },
            None => None,
        },
    }
}

/// The quota read from a usage response: the primary window is the
/// five-hour one, the secondary the weekly one; a missing window reads as
/// fully available with nothing else known.
pub fn parse_quota_from_usage(usage: &UsageResponse, now: i64) -> (r: Result<CodexQuota, String>)
    ensures
        r matches Ok(q) && ({
            let primary = match usage.rate_limit {
                Some(rl) => rl.primary_window,
                None => None,
            };
            let secondary = match usage.rate_limit {
                Some(rl) => rl.secondary_window,
                None => None,
            };
            &&& q.hourly_window_present == Some(primary is Some)
            &&& q.weekly_window_present == Some(secondary is Some)
            &&& match primary {
                Some(w) => q.hourly_percentage == remaining_percentage(w) && match q.hourly_reset_time {
                    Some(t) => reset_time(w, now) == Some(t as int),
                    None => reset_time(w, now) is None,
                } && match q.hourly_window_minutes {
                    Some(m) => window_minutes(w) == Some(m as int),
                    None => window_minutes(w) is None,
                },
                None => q.hourly_percentage == 100 && q.hourly_reset_time is None
                    && q.hourly_window_minutes is None,
            }
            &&& match secondary {
                Some(w) => q.weekly_percentage == remaining_percentage(w) && match q.weekly_reset_time {
                    Some(t) => reset_time(w, now) == Some(t as int),
                    None => reset_time(w, now) is None,
                } && match q.weekly_window_minutes {
                    Some(m) => window_minutes(w) == Some(m as int),
                    None => window_minutes(w) is None,
                },
                None => q.weekly_percentage == 100 && q.weekly_reset_time is None
                    && q.weekly_window_minutes is None,
            }
        }),
{
    let primary = match &usage.rate_limit {
        Some(rl) => rl.primary_window,
        None => None,
    };
    let secondary = match &usage.rate_limit {
        Some(rl) => rl.secondary_window,
        None => None,
    };
    let (hourly_percentage, hourly_reset_time, hourly_window_minutes) = match &primary {
        Some(w) => (
            normalize_remaining_percentage(w),
            normalize_reset_time(w, now),
            normalize_window_minutes(w),
        ),
        None => (100, None, None),
    };
    let (weekly_percentage, weekly_reset_time, weekly_window_minutes) = match &secondary {
        Some(w) => (
            normalize_remaining_percentage(w),
            normalize_reset_time(w, now),
            normalize_window_minutes(w),
        ),
        None => (100, None, None),
    };
    Ok(
        CodexQuota {
            hourly_percentage,
            hourly_reset_time,
            hourly_window_minutes,
            hourly_window_present: Some(primary.is_some()),
            weekly_percentage,
            weekly_reset_time,
            weekly_window_minutes,
            weekly_window_present: Some(secondary.is_some()),
        },
    )
}

// ---------------------------------------------------------------------------
// Error codes
// ---------------------------------------------------------------------------

/// A character that ends an `error_code=` value.
pub open spec fn is_code_stop(c: char) -> bool {
    c == ',' || c == ']' || is_ws(c)
}

/// The position of the first character that ends a code, or the length.
pub open spec fn code_end(s: Seq<char>) -> int
    decreases s.len(),
{
    if s.len() == 0 {
        0
    } else if is_code_stop(s[0]) {
        0
    } else {
        1 + code_end(s.drop_first())
    }
}

proof fn lemma_code_end(s: Seq<char>)
    ensures
        0 <= code_end(s) <= s.len(),
        forall|j: int| 0 <= j < code_end(s) ==> !is_code_stop(#[trigger] s[j]),
        code_end(s) < s.len() ==> is_code_stop(s[code_end(s)]),
    decreases s.len(),
{
    if s.len() > 0 && !is_code_stop(s[0]) {
        let t = s.drop_first();
        lemma_code_end(t);
        assert forall|j: int| 0 <= j < code_end(s) implies !is_code_stop(#[trigger] s[j]) by {
            if j > 0 {
                assert(s[j] == t[j - 1]);
            }
        }
    }
}

/// The error code carried by a message: the text between `[error_code:` and
/// the next `]`, or else the trimmed text after `error_code=` up to a comma,
/// a `]` or whitespace, when that is not empty.
pub open spec fn error_code_in(message: Seq<char>) -> Option<Seq<char>> {
    match find(message, "[error_code:"@) {
        Some(start) => {
            let tail = message.skip(start + "[error_code:"@.len());
            match find(tail, "]"@) {
                Some(end) => Some(tail.take(end)),
                None => None,
            }
        },
        None => match find(message, "error_code="@) {
            Some(start) => {
                let tail = message.skip(start + "error_code="@.len());
                let code = trim(tail.take(code_end(tail)));
                if code.len() == 0 {
                    None
                } else {
                    Some(code)
                }
            },
            None => None,
        },
    }
}

fn skip_vec(v: &Vec<char>, from: usize) -> (r: Vec<char>)
    requires
        from <= v.len(),
    ensures
        r@ == v@.skip(from as int),
{
    let r = sub_vec(v, from, v.len());
    assert(r@ =~= v@.skip(from as int));
    r
}

/// The error code carried by a message, if any.
pub fn extract_error_code_from_message(message: &str) -> (r: Option<String>)
    ensures
        match r {
            Some(c) => error_code_in(message@) == Some(c@),
            None => error_code_in(message@) is None,
        },
{
    let m = chars_of(message);
    let m_len = m.len();
    let bracket = chars_of("[error_code:");
    match find_exec(&m, &bracket) {
        Some(start) => {
            assert(occurs_at(m@, bracket@, start as int));
            assert(start + bracket@.len() <= m@.len());
            let tail = skip_vec(&m, start + bracket.len());
            let close = chars_of("]");
            match find_exec(&tail, &close) {
                Some(end) => {
                    let code = sub_vec(&tail, 0, end);
                    assert(code@ =~= tail@.take(end as int));
                    Some(string_of(&code))
                },
                None => None,
            }
        },
        None => {
            let marker = chars_of("error_code=");
            match find_exec(&m, &marker) {
                Some(start) => {
                    assert(occurs_at(m@, marker@, start as int));
                    let tail = skip_vec(&m, start + marker.len());
                    let mut end: usize = 0;
                    proof {
                        lemma_code_end(tail@);
                    }
                    while end < tail.len() && !(tail[end] == ',' || tail[end] == ']' || is_ws_char(
                        tail[end],
                    ))
                        invariant
                            end <= code_end(tail@),
                            0 <= code_end(tail@) <= tail@.len(),
                            code_end(tail@) < tail@.len() ==> is_code_stop(tail@[code_end(tail@)]),
                            forall|j: int| 0 <= j < code_end(tail@) ==> !is_code_stop(#[trigger] tail@[j]),
                        decreases tail.len() - end,
                    {
                        end = end + 1;
                    }
                    let head = sub_vec(&tail, 0, end);
                    assert(head@ =~= tail@.take(end as int));
                    let code = trim_vec(&head);
                    if code.len() == 0 {
                        None
                    } else {
                        Some(string_of(&code))
                    }
                },
                None => None,
            }
        },
    }
}

/// Records the error of a failed quota refresh on the account, with the code
/// the message carries and the time it happened.
pub fn write_quota_error(account: &mut CodexAccount, message: String, now: i64)
    ensures
        final(account).quota_error matches Some(info) && info.message@ == message@ && info.timestamp
            == now && match info.code {
            Some(c) => error_code_in(message@) == Some(c@),
            None => error_code_in(message@) is None,
        },
        final(account).id == old(account).id,
{
    let code = extract_error_code_from_message(message.as_str());
    account.quota_error = Some(CodexQuotaErrorInfo { code, message, timestamp: now });
}

// ---------------------------------------------------------------------------
// Subscription status
// ---------------------------------------------------------------------------

/// The trimmed text, unless it is empty.
pub open spec fn optional_ref(raw: Option<Seq<char>>) -> Option<Seq<char>> {
    match raw {
        Some(s) => if trim(s).len() == 0 {
            None
        } else {
            Some(trim(s))
        },
        None => None,
    }
}

/// The trimmed text, unless it is empty or missing.
pub fn normalize_optional_ref(raw: Option<&str>) -> (r: Option<String>)
    ensures
        opt_string_text(r) == optional_ref(opt_text(raw)),
{
    match raw {
        Some(s) => {
            let t = trim_str(s);
            let tv = chars_of(t.as_str());
            if tv.len() == 0 {
                None
            } else {
                Some(t)
            }
        },
        None => None,
    }
}

/// A subscription end date in seconds: all-digit text is a Unix time (taken
/// as milliseconds above 10^12), other text an RFC 3339 date.
pub open spec fn subscription_timestamp(raw: Seq<char>) -> Option<int> {
    let t = trim(raw);
    if t.len() == 0 {
        None
    } else if all_digits(t) {
        if decimal_value(t) > i64::MAX {
            None
        } else if decimal_value(t) > 1_000_000_000_000 {
            Some(decimal_value(t) / 1000)
        } else {
            Some(decimal_value(t))
        }
    } else {
        match rfc3339_seconds(t) {
            Some(s) => Some(s as int),
            None => None,
        }
    }
}

/// A subscription end date in seconds, if the text holds one.
pub fn parse_subscription_timestamp(raw: &str) -> (r: Option<i64>)
    ensures
        match r {
            Some(t) => subscription_timestamp(raw@) == Some(t as int),
            None => subscription_timestamp(raw@) is None,
        },
{
    let t = trim_vec(&chars_of(raw));
    if t.len() == 0 {
        return None;
    }
    if all_digits_exec(&t) {
        match parse_decimal(&t, i64::MAX as u64) {
            None => None,
            Some(v) => {
                let v = v as i64;
                if v > 1_000_000_000_000 {
                    Some(v / 1000)
                } else {
                    Some(v)
                }
            },
        }
    } else {
        let text = string_of(&t);
        parse_rfc3339_seconds(text.as_str())
    }
}

/// The subscription is unknown, unreadable or over at `now`.
pub open spec fn missing_or_expired(raw: Option<Seq<char>>, now: i64) -> bool {
    match raw {
        None => true,
        Some(s) => match subscription_timestamp(s) {
            None => true,
            Some(t) => t <= now,
        },
    }
}

/// Whether the subscription is unknown, unreadable or over at `now`.
pub fn subscription_missing_or_expired(raw: Option<&str>, now: i64) -> (r: bool)
    ensures
        r == missing_or_expired(opt_text(raw), now),
{
    match raw {
        None => true,
        Some(s) => match parse_subscription_timestamp(s) {
            None => true,
            Some(t) => t <= now,
        },
    }
}

/// Records a failed subscription query at `now`: the next one waits the retry
/// interval, and the (trimmed, non-empty) error is kept.
pub fn mark_subscription_retry_pending(account: &mut CodexAccount, error: Option<String>, now: i64)
    requires
        now <= i64::MAX - SUBSCRIPTION_RETRY_INTERVAL_SECONDS,
    ensures
        final(account).subscription_query_last_attempt_at == Some(now),
        final(account).subscription_query_next_retry_at == Some(
            (now + SUBSCRIPTION_RETRY_INTERVAL_SECONDS) as i64,
        ),
        opt_string_text(final(account).subscription_query_last_error) == optional_ref(
            opt_string_text(error),
        ),
        final(account).subscription_active_until == old(account).subscription_active_until,
        final(account).id == old(account).id,
{
    account.subscription_query_last_attempt_at = Some(now);
    account.subscription_query_next_retry_at = Some(now + SUBSCRIPTION_RETRY_INTERVAL_SECONDS);
    account.subscription_query_last_error = match &error {
        Some(message) => normalize_optional_ref(Some(message.as_str())),
        None => None,
    };
}

/// Clears a pending retry: no next query time and no error.
pub fn clear_subscription_retry_pending(account: &mut CodexAccount)
    ensures
        final(account).subscription_query_next_retry_at is None,
        final(account).subscription_query_last_error is None,
        final(account).subscription_query_last_attempt_at == old(
            account,
        ).subscription_query_last_attempt_at,
        final(account).subscription_active_until == old(account).subscription_active_until,
        final(account).id == old(account).id,
{
    account.subscription_query_next_retry_at = None;
    account.subscription_query_last_error = None;
}

/// Clears a pending retry once the subscription is known to run past `now`.
pub fn normalize_subscription_retry_state(account: &mut CodexAccount, now: i64)
    ensures
        !missing_or_expired(opt_string_text(old(account).subscription_active_until), now) ==> (
        final(account).subscription_query_next_retry_at is None
            && final(account).subscription_query_last_error is None),
        missing_or_expired(opt_string_text(old(account).subscription_active_until), now) ==> (
        final(account).subscription_query_next_retry_at == old(
            account,
        ).subscription_query_next_retry_at && opt_string_text(
            final(account).subscription_query_last_error,
        ) == opt_string_text(old(account).subscription_query_last_error)),
        final(account).subscription_active_until == old(account).subscription_active_until,
        final(account).id == old(account).id,
{
    let until = match &account.subscription_active_until {
        Some(s) => Some(s.as_str()),
        None => None,
    };
    proof {
        assert(opt_text(until) == opt_string_text(account.subscription_active_until));
    }
    if !subscription_missing_or_expired(until, now) {
        clear_subscription_retry_pending(account);
    }
}

/// Whether to query the subscription now: always when forced; otherwise only
/// when it is unknown or over, and no retry is scheduled after `now`.
pub open spec fn should_refresh_subscription(account: CodexAccount, force: bool, now: i64) -> bool {
    if force {
        true
    } else if !missing_or_expired(opt_string_text(account.subscription_active_until), now) {
        false
    } else {
        match account.subscription_query_next_retry_at {
            Some(next) => next <= now,
            None => true,
        }
    }
}

/// Whether to query the subscription now.
pub fn should_attempt_subscription_refresh(account: &CodexAccount, force: bool, now: i64) -> (r: bool)
    ensures
        r == should_refresh_subscription(*account, force, now),
{
    let until = match &account.subscription_active_until {
        Some(s) => Some(s.as_str()),
        None => None,
    };
    proof {
        assert(opt_text(until) == opt_string_text(account.subscription_active_until));
    }
    if !subscription_missing_or_expired(until, now) && !force {
        return false;
    }
    if force {
        return true;
    }
    match account.subscription_query_next_retry_at {
        Some(next) => next <= now,
        None => true,
    }
}

/// The error code a failed usage response's body names: `detail.code`, else
/// `error.code`, else `code`, the first of them that is text.
pub open spec fn detail_code(body: Option<JsonValue>) -> Option<Seq<char>> {
    match body {
        None => None,
        Some(v) => match as_text(field_of(field(v, "detail"@), "code"@)) {
            Some(c) => Some(c),
            None => match as_text(field_of(field(v, "error"@), "code"@)) {
                Some(c) => Some(c),
                None => as_text(field(v, "code"@)),
            },
        },
    }
}

fn detail_code_of(value: &JsonValue) -> (r: Option<String>)
    ensures
        opt_string_text(r) == detail_code(Some(*value)),
{
    if let Some(code) = text_of(get_member_of(get_member(value, "detail"), "code")) {
        return Some(code);
    }
    if let Some(code) = text_of(get_member_of(get_member(value, "error"), "code")) {
        return Some(code);
    }
    text_of(get_member(value, "code"))
}

/// The error code a failed usage response's body names.
pub fn extract_detail_code_from_body(body: &str) -> (r: Option<String>)
    ensures
        opt_string_text(r) == detail_code(json_from_text(body@)),
{
    match parse_json_text(body) {
        Some(value) => detail_code_of(&value),
        None => None,
    }
}

/// The error a failed usage request reports: the status, the body's error
/// code where it names one, and the body's length in bytes.
pub open spec fn quota_error_text(status_text: Seq<char>, code: Option<Seq<char>>, body_len: nat) -> Seq<char> {
    "API 返回错误 "@ + status_text + match code {
        Some(c) => " [error_code:"@ + c + "]"@,
        None => Seq::empty(),
    } + " [body_len:"@ + decimal_text(body_len) + "]"@
}

/// The error a failed usage request reports.
pub fn quota_error_message(status_text: &str, body: &[u8]) -> (r: String)
    ensures
        r@ == quota_error_text(status_text@, detail_code(json_from_bytes(body@)), body@.len()),
{
    let code = match parse_json_bytes(body) {
        Some(value) => detail_code_of(&value),
        None => None,
    };
    let mut message = concat_str("API 返回错误 ", status_text);
    let ghost head = message@;
    match &code {
        Some(c) => {
            message = concat_str(concat_str(concat_str(message.as_str(), " [error_code:").as_str(), c.as_str()).as_str(), "]");
        },
        None => {
            proof {
                assert(head + Seq::<char>::empty() =~= head);
            }
        },
    }
    let len_text = decimal_string(body.len() as u64);
    let r = concat_str(concat_str(concat_str(message.as_str(), " [body_len:").as_str(), len_text.as_str()).as_str(), "]");
    proof {
        match &code {
            Some(c) => {
                assert(r@ =~= quota_error_text(status_text@, Some(c@), body@.len()));
            },
            None => {
                assert(r@ =~= quota_error_text(status_text@, None, body@.len()));
            },
        }
    }
    r
}

} // verus!
