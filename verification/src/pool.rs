//! Dispatching one request over the account pool, as a state machine: the
//! caller orders each round's accounts, checks cooldowns, prepares accounts,
//! sends upstream, refreshes and sleeps as asked, and hands back what it got;
//! the step decides which account comes next, when to retry, when to wait
//! for a cooldown, and what the request finally answers.
use vstd::prelude::*;
use crate::errors::{
    error_category, retry_after, try_next_account, transient_status, upstream_error_summary,
    retry_delay_ms, classify_upstream_error_category_at, parse_codex_retry_after_at,
    should_try_next_account, should_retry_single_account_upstream_status, summarize_upstream_error,
    single_account_status_retry_delay,
};
use crate::routing_state::{cooldown_unavailable_message, build_cooldown_unavailable_message};
use crate::collection::{CodexLocalAccessCollection, MAX_RETRY_INTERVAL_MAX_MS};
use crate::text::{lit, concat_str, copy_string, copy_opt_string, trim, trim_vec, chars_of, opt_string_text, texts, copy_strings};

verus! {

broadcast use vstd::string::group_string_axioms;

/// What stays the same for one request.
pub struct PoolConfig {
    pub total: u64,
    pub max_attempts: u64,
    pub disable_cooling: bool,
    pub restrict_free: bool,
    pub max_retry_wait_ms: u64,
    pub model_key: String,
    pub affinity_account_id: Option<String>,
}

/// How many accounts one request may try: the configured number (all when
/// it is 0), at most the accounts there are and at most 8, at least 1.
pub open spec fn max_attempts_for(total: u64, configured: u16) -> u64 {
    let a = if configured == 0 {
        total
    } else if (configured as u64) < total {
        configured as u64
    } else {
        total
    };
    let b = if a > 8 { 8 } else { a };
    if b < 1 { 1 } else { b }
}

/// How many accounts a request tries: at least one and at most eight, never
/// more than the configured number (when one is set) nor than the accounts
/// there are; and the largest number within those bounds, so a request
/// tries as many as it is allowed.
pub proof fn lemma_max_attempts_bounds(total: u64, configured: u16)
    ensures
        ({
            let m = max_attempts_for(total, configured);
            &&& 1 <= m <= 8
            &&& configured > 0 ==> m <= configured
            &&& total > 0 ==> m <= total
            &&& total == 0 ==> m == 1
            &&& total > 0 ==> (m == 8 || m == total || m == configured)
        }),
{
}

/// The settings of one request.
pub fn pool_config(
    collection: &CodexLocalAccessCollection,
    model_key: &str,
    affinity_account_id: Option<String>,
) -> (r: PoolConfig)
    ensures
        r.total == collection.account_ids@.len(),
        r.max_attempts == max_attempts_for(r.total, collection.max_retry_credentials),
        1 <= r.max_attempts <= 8,
        collection.max_retry_credentials > 0 ==> r.max_attempts <= collection.max_retry_credentials,
        r.total > 0 ==> r.max_attempts <= r.total,
        r.total == 0 ==> r.max_attempts == 1,
        r.total > 0 ==> (r.max_attempts == 8 || r.max_attempts == r.total || r.max_attempts
            == collection.max_retry_credentials),
        r.disable_cooling == collection.disable_cooling,
        r.restrict_free == collection.restrict_free_accounts,
        r.max_retry_wait_ms == if collection.max_retry_interval_ms > MAX_RETRY_INTERVAL_MAX_MS {
            MAX_RETRY_INTERVAL_MAX_MS
        } else {
            collection.max_retry_interval_ms
        },
        r.model_key@ == model_key@,
        opt_string_text(r.affinity_account_id) == opt_string_text(affinity_account_id),
{
    let total = collection.account_ids.len() as u64;
    let configured = collection.max_retry_credentials;
    let a: u64 = if configured == 0 {
        total
    } else if (configured as u64) < total {
        configured as u64
    } else {
        total
    };
    let b: u64 = if a > 8 { 8 } else { a };
    PoolConfig {
        total,
        max_attempts: if b < 1 { 1 } else { b },
        disable_cooling: collection.disable_cooling,
        restrict_free: collection.restrict_free_accounts,
        max_retry_wait_ms: if collection.max_retry_interval_ms > MAX_RETRY_INTERVAL_MAX_MS {
            MAX_RETRY_INTERVAL_MAX_MS
        } else {
            collection.max_retry_interval_ms
        },
        model_key: lit(model_key),
        affinity_account_id,
    }
}

/// An account as the pool knows it once prepared.
pub struct PoolAccount {
    pub id: String,
    pub email: String,
    pub is_api_key: bool,
    pub has_refresh_token: bool,
    pub free_plan: bool,
}

/// What the pool waits for.
#[derive(PartialEq, Eq, Structural)]
pub enum PoolPhase {
    Start,
    AwaitOrder,
    AwaitCooldown,
    AwaitPrepare,
    AwaitSend,
    AwaitRefresh,
    RetryWait,
    RoundWait,
    Done,
}

/// Where one request stands.
pub struct PoolState {
    pub phase: PoolPhase,
    pub attempts: u64,
    pub retry_round: u64,
    pub order: Vec<String>,
    pub pos: usize,
    pub attempted_in_round: bool,
    pub round_wait: Option<u64>,
    pub current: Option<PoolAccount>,
    pub single_retry: u64,
    pub refreshed: bool,
    pub last_status: u16,
    pub last_error: String,
    pub last_category: Option<String>,
    pub last_account: Option<(String, String)>,
}

/// What the caller hands back.
pub enum PoolEvent {
    /// The request begins; the error where its target has no upstream.
    Begin(Result<(), String>),
    /// The round's accounts, in the order to try them.
    Ordered(Vec<String>),
    /// The cooldown left for the candidate and the model, in milliseconds.
    Cooldown(Option<u64>),
    /// The candidate, prepared, or why it could not be.
    Prepared(Result<PoolAccount, String>),
    /// The upstream status and body, or the network error.
    Sent(Result<(u16, String), String>),
    /// The account after a forced refresh, or why it failed.
    Refreshed(Result<PoolAccount, String>),
    /// The asked pause is over.
    Slept,
}

/// A change the caller applies to the routing state.
pub enum PoolEffect {
    Invalidate(String),
    MarkFailure { account_id: String, status: Option<u16>, category: Option<String>, message: String },
    SetCooldown { account_id: String, wait_ms: u64 },
    ClearCooldown(String),
    MarkSuccess(String),
}

/// What the caller does next.
pub enum PoolRequest {
    OrderRound,
    CheckCooldown(String),
    Prepare(String),
    Send,
    Refresh(String),
    Sleep(u64),
    Succeed { account_id: String, account_email: String },
    Fail { status: u16, message: String, account_id: Option<String>, account_email: Option<String>, category: Option<String> },
}

// ---------------------------------------------------------------------------
// Views
// ---------------------------------------------------------------------------

pub type AccountView = (Seq<char>, Seq<char>, bool, bool, bool);

pub open spec fn account_view(a: PoolAccount) -> AccountView {
    (a.id@, a.email@, a.is_api_key, a.has_refresh_token, a.free_plan)
}

pub open spec fn opt_account_view(a: Option<PoolAccount>) -> Option<AccountView> {
    match a {
        Some(x) => Some(account_view(x)),
        None => None,
    }
}

pub open spec fn opt_pair_view(p: Option<(String, String)>) -> Option<(Seq<char>, Seq<char>)> {
    match p {
        Some((a, b)) => Some((a@, b@)),
        None => None,
    }
}

/// A state by its plain values.
pub struct StateView {
    pub phase: PoolPhase,
    pub attempts: u64,
    pub retry_round: u64,
    pub order: Seq<Seq<char>>,
    pub pos: int,
    pub attempted_in_round: bool,
    pub round_wait: Option<u64>,
    pub current: Option<AccountView>,
    pub single_retry: u64,
    pub refreshed: bool,
    pub last_status: u16,
    pub last_error: Seq<char>,
    pub last_category: Option<Seq<char>>,
    pub last_account: Option<(Seq<char>, Seq<char>)>,
}

pub open spec fn state_view(s: PoolState) -> StateView {
    StateView {
        phase: s.phase,
        attempts: s.attempts,
        retry_round: s.retry_round,
        order: texts(s.order@),
        pos: s.pos as int,
        attempted_in_round: s.attempted_in_round,
        round_wait: s.round_wait,
        current: opt_account_view(s.current),
        single_retry: s.single_retry,
        refreshed: s.refreshed,
        last_status: s.last_status,
        last_error: s.last_error@,
        last_category: opt_string_text(s.last_category),
        last_account: opt_pair_view(s.last_account),
    }
}

pub enum EventView {
    Begin(Result<(), Seq<char>>),
    Ordered(Seq<Seq<char>>),
    Cooldown(Option<u64>),
    Prepared(Result<AccountView, Seq<char>>),
    Sent(Result<(u16, Seq<char>), Seq<char>>),
    Refreshed(Result<AccountView, Seq<char>>),
    Slept,
}

pub open spec fn event_view(e: PoolEvent) -> EventView {
    match e {
        PoolEvent::Begin(r) => EventView::Begin(match r { Ok(_) => Ok(()), Err(m) => Err(m@) }),
        PoolEvent::Ordered(ids) => EventView::Ordered(texts(ids@)),
        PoolEvent::Cooldown(w) => EventView::Cooldown(w),
        PoolEvent::Prepared(r) => EventView::Prepared(match r { Ok(a) => Ok(account_view(a)), Err(m) => Err(m@) }),
        PoolEvent::Sent(r) => EventView::Sent(match r { Ok((s, b)) => Ok((s, b@)), Err(m) => Err(m@) }),
        PoolEvent::Refreshed(r) => EventView::Refreshed(match r { Ok(a) => Ok(account_view(a)), Err(m) => Err(m@) }),
        PoolEvent::Slept => EventView::Slept,
    }
}

pub enum EffectView {
    Invalidate(Seq<char>),
    MarkFailure(Seq<char>, Option<u16>, Option<Seq<char>>, Seq<char>),
    SetCooldown(Seq<char>, u64),
    ClearCooldown(Seq<char>),
    MarkSuccess(Seq<char>),
}

pub open spec fn effect_view(e: PoolEffect) -> EffectView {
    match e {
        PoolEffect::Invalidate(id) => EffectView::Invalidate(id@),
        PoolEffect::MarkFailure { account_id, status, category, message } => EffectView::MarkFailure(
            account_id@,
            status,
            opt_string_text(category),
            message@,
        ),
        PoolEffect::SetCooldown { account_id, wait_ms } => EffectView::SetCooldown(account_id@, wait_ms),
        PoolEffect::ClearCooldown(id) => EffectView::ClearCooldown(id@),
        PoolEffect::MarkSuccess(id) => EffectView::MarkSuccess(id@),
    }
}

pub open spec fn effects_view(v: Seq<PoolEffect>) -> Seq<EffectView> {
    v.map_values(|e: PoolEffect| effect_view(e))
}

pub enum RequestView {
    OrderRound,
    CheckCooldown(Seq<char>),
    Prepare(Seq<char>),
    Send,
    Refresh(Seq<char>),
    Sleep(u64),
    Succeed(Seq<char>, Seq<char>),
    Fail(u16, Seq<char>, Option<Seq<char>>, Option<Seq<char>>, Option<Seq<char>>),
}

pub open spec fn request_view(r: PoolRequest) -> RequestView {
    match r {
        PoolRequest::OrderRound => RequestView::OrderRound,
        PoolRequest::CheckCooldown(id) => RequestView::CheckCooldown(id@),
        PoolRequest::Prepare(id) => RequestView::Prepare(id@),
        PoolRequest::Send => RequestView::Send,
        PoolRequest::Refresh(id) => RequestView::Refresh(id@),
        PoolRequest::Sleep(ms) => RequestView::Sleep(ms),
        PoolRequest::Succeed { account_id, account_email } => RequestView::Succeed(account_id@, account_email@),
        PoolRequest::Fail { status, message, account_id, account_email, category } => RequestView::Fail(
            status,
            message@,
            opt_string_text(account_id),
            opt_string_text(account_email),
            opt_string_text(category),
        ),
    }
}

/// The settings by their plain values.
pub struct ConfigView {
    pub total: u64,
    pub max_attempts: u64,
    pub disable_cooling: bool,
    pub restrict_free: bool,
    pub max_retry_wait_ms: u64,
    pub model_key: Seq<char>,
    pub affinity_account_id: Option<Seq<char>>,
}

pub open spec fn config_view(c: PoolConfig) -> ConfigView {
    ConfigView {
        total: c.total,
        max_attempts: c.max_attempts,
        disable_cooling: c.disable_cooling,
        restrict_free: c.restrict_free,
        max_retry_wait_ms: c.max_retry_wait_ms,
        model_key: c.model_key@,
        affinity_account_id: opt_string_text(c.affinity_account_id),
    }
}

// ---------------------------------------------------------------------------
// The step
// ---------------------------------------------------------------------------

/// The shorter of a round's wait so far and another.
pub open spec fn min_wait(w: Option<u64>, x: u64) -> Option<u64> {
    match w {
        Some(c) if c <= x => Some(c),
        _ => Some(x),
    }
}

/// A wait in seconds in milliseconds, saturating.
pub open spec fn seconds_ms(s: u64) -> u64 {
    if s > u64::MAX / 1000 { u64::MAX } else { (s * 1000) as u64 }
}

/// The answer when no account served: 429 for a cooldown in place of 503,
/// and the cooldown message in place of the last error for 429 and 503.
pub open spec fn final_failure(c: ConfigView, s: StateView, wait: Option<u64>) -> RequestView {
    RequestView::Fail(
        if s.last_status == 503 && wait is Some { 429 } else { s.last_status },
        if (s.last_status == 429 || s.last_status == 503) && wait is Some {
            cooldown_unavailable_message(c.model_key, wait->Some_0)
        } else {
            s.last_error
        },
        match s.last_account { Some((id, _)) => Some(id), None => None },
        match s.last_account { Some((_, email)) => Some(email), None => None },
        s.last_category,
    )
}

/// Going on with the round: the next candidate, unless the round is over or
/// the tries are used up; then the wait for a cooldown, or the answer.
pub open spec fn advance(c: ConfigView, s: StateView) -> (StateView, RequestView) {
    if s.pos < s.order.len() && s.attempts < c.max_attempts {
        let id = s.order[s.pos];
        if c.disable_cooling {
            (
                StateView { phase: PoolPhase::AwaitPrepare, attempted_in_round: true, attempts: (s.attempts + 1) as u64, ..s },
                RequestView::Prepare(id),
            )
        } else {
            (StateView { phase: PoolPhase::AwaitCooldown, ..s }, RequestView::CheckCooldown(id))
        }
    } else {
        match s.round_wait {
            None => (StateView { phase: PoolPhase::Done, ..s }, final_failure(c, s, None)),
            Some(w) => if s.attempts >= c.max_attempts || s.retry_round >= 1 || w > c.max_retry_wait_ms {
                if !s.attempted_in_round {
                    (
                        StateView { phase: PoolPhase::Done, ..s },
                        RequestView::Fail(
                            429,
                            cooldown_unavailable_message(c.model_key, w),
                            c.affinity_account_id,
                            None,
                            Some("cooldown"@),
                        ),
                    )
                } else {
                    (StateView { phase: PoolPhase::Done, ..s }, final_failure(c, s, Some(w)))
                }
            } else {
                (StateView { phase: PoolPhase::RoundWait, ..s }, RequestView::Sleep(w))
            },
        }
    }
}

/// The candidate failed: record why and go on with the next.
pub open spec fn next_account(
    c: ConfigView,
    s: StateView,
    status: u16,
    error: Seq<char>,
    category: Seq<char>,
) -> (StateView, RequestView) {
    advance(
        c,
        StateView {
            last_status: status,
            last_error: error,
            last_category: Some(category),
            pos: s.pos + 1,
            current: None,
            ..s
        },
    )
}

/// The message for an account without image generation.
pub open spec fn image_disabled_message(email: Seq<char>) -> Seq<char> {
    if trim(email).len() == 0 {
        "当前上游账号未启用图片生成能力。请在 API 服务里将 image_generation 改为“仅图片接口启用”或“禁用”，或换用具备图片能力的账号。"@
    } else {
        "账号 "@ + trim(email) + " 未启用图片生成能力。请在 API 服务里将 image_generation 改为“仅图片接口启用”或“禁用”，或换用具备图片能力的账号。"@
    }
}

/// What an upstream answer that is not a success does, at time `now`.
pub open spec fn failed_answer(
    c: ConfigView,
    s: StateView,
    a: AccountView,
    status: u16,
    body: Seq<char>,
    now: i64,
) -> (StateView, Seq<EffectView>, RequestView) {
    let category = error_category(status, body, now);
    let image = category == Some("image_generation_not_enabled"@);
    let message = if image { image_disabled_message(a.1) } else { upstream_error_summary(status, body) };
    let mark = EffectView::MarkFailure(a.0, Some(status), category, message);
    let (wait, effects) = if !c.disable_cooling && retry_after(status, body, now) is Some {
        let ms = seconds_ms(retry_after(status, body, now)->Some_0);
        (min_wait(s.round_wait, ms), seq![mark, EffectView::SetCooldown(a.0, ms)])
    } else {
        (s.round_wait, seq![mark])
    };
    let s1 = StateView { round_wait: wait, ..s };
    if c.total == 1 && s.single_retry < 2 && transient_status(status) {
        let n = (s.single_retry + 1) as u64;
        (
            StateView { phase: PoolPhase::RetryWait, single_retry: n, refreshed: false, ..s1 },
            effects,
            RequestView::Sleep(retry_delay_ms(n as usize, 300, 1500)),
        )
    } else if try_next_account(status, body) {
        let error = if image {
            message
        } else {
            "账号 "@ + a.1 + " 当前不可用，已尝试轮转: "@ + message
        };
        let next = advance(
            c,
            StateView { last_status: status, last_error: error, last_category: category, pos: s1.pos + 1, current: None, ..s1 },
        );
        (next.0, effects, next.1)
    } else {
        (
            StateView { phase: PoolPhase::Done, ..s1 },
            effects,
            RequestView::Fail(status, message, Some(a.0), Some(a.1), category),
        )
    }
}

/// What an upstream answer does, at time `now`.
pub open spec fn sent_answer(
    c: ConfigView,
    s: StateView,
    a: AccountView,
    status: u16,
    body: Seq<char>,
    now: i64,
) -> (StateView, Seq<EffectView>, RequestView) {
    let invalid_auth = |message: Seq<char>, error: Seq<char>| {
        let n = next_account(c, s, 401, error, "auth_unavailable"@);
        (n.0, seq![EffectView::Invalidate(a.0), EffectView::MarkFailure(a.0, Some(401), Some("auth_unavailable"@), message)], n.1)
    };
    if status == 401 && !s.refreshed && a.2 {
        invalid_auth("API Key 账号上游鉴权失败"@, "API Key 账号 "@ + a.1 + " 上游鉴权失败"@)
    } else if status == 401 && !s.refreshed && !a.3 {
        invalid_auth(
            "access-token-only 账号的 access_token 已被上游拒绝"@,
            "账号 "@ + a.1 + " 当前 access_token 已被上游拒绝"@,
        )
    } else if status == 401 && !s.refreshed {
        (StateView { phase: PoolPhase::AwaitRefresh, ..s }, Seq::empty(), RequestView::Refresh(a.0))
    } else if status == 401 {
        invalid_auth("账号鉴权失败"@, "账号 "@ + a.1 + " 鉴权失败"@)
    } else if 200 <= status <= 299 {
        (
            StateView { phase: PoolPhase::Done, ..s },
            seq![EffectView::ClearCooldown(a.0), EffectView::MarkSuccess(a.0)],
            RequestView::Succeed(a.0, a.1),
        )
    } else {
        failed_answer(c, s, a, status, body, now)
    }
}

/// Whether the pool waits for this kind of event.
pub open spec fn pool_expects(phase: PoolPhase, e: EventView) -> bool {
    match e {
        EventView::Begin(_) => phase == PoolPhase::Start,
        EventView::Ordered(_) => phase == PoolPhase::AwaitOrder,
        EventView::Cooldown(_) => phase == PoolPhase::AwaitCooldown,
        EventView::Prepared(_) => phase == PoolPhase::AwaitPrepare,
        EventView::Sent(_) => phase == PoolPhase::AwaitSend,
        EventView::Refreshed(_) => phase == PoolPhase::AwaitRefresh,
        EventView::Slept => phase == PoolPhase::RetryWait || phase == PoolPhase::RoundWait,
    }
}

/// One step of the pool, at time `now`: the new state, the changes to the
/// routing state, and what the caller does next.
pub open spec fn pool_step(c: ConfigView, s: StateView, e: EventView, now: i64) -> (StateView, Seq<EffectView>, RequestView) {
    match e {
        EventView::Begin(r) => if c.total == 0 {
            (StateView { phase: PoolPhase::Done, ..s }, Seq::empty(), RequestView::Fail(503, "本地接入集合暂无账号"@, None, None, Some("no_accounts"@)))
        } else {
            match r {
                Err(m) => (StateView { phase: PoolPhase::Done, ..s }, Seq::empty(), RequestView::Fail(400, m, None, None, Some("bad_request"@))),
                Ok(_) => (StateView { phase: PoolPhase::AwaitOrder, ..s }, Seq::empty(), RequestView::OrderRound),
            }
        },
        EventView::Ordered(ids) => {
            let n = advance(c, StateView { order: ids, pos: 0, attempted_in_round: false, round_wait: None, ..s });
            (n.0, Seq::empty(), n.1)
        },
        EventView::Cooldown(w) => match w {
            Some(x) => {
                let n = advance(c, StateView { round_wait: min_wait(s.round_wait, x), pos: s.pos + 1, ..s });
                (n.0, Seq::empty(), n.1)
            },
            None => (
                StateView { phase: PoolPhase::AwaitPrepare, attempted_in_round: true, attempts: (s.attempts + 1) as u64, ..s },
                Seq::empty(),
                RequestView::Prepare(s.order[s.pos]),
            ),
        },
        EventView::Prepared(r) => match r {
            Err(m) => {
                let n = advance(c, StateView { last_error: m, last_category: Some("account_prepare_failed"@), pos: s.pos + 1, ..s });
                (n.0, seq![EffectView::Invalidate(s.order[s.pos])], n.1)
            },
            Ok(a) => if c.restrict_free && a.4 {
                let msg = "Free 账号不支持加入本地接入"@;
                let n = advance(c, StateView { last_error: msg, last_category: Some("free_account_restricted"@), pos: s.pos + 1, ..s });
                (n.0, seq![EffectView::MarkFailure(a.0, None, Some("free_account_restricted"@), msg)], n.1)
            } else {
                (
                    StateView { phase: PoolPhase::AwaitSend, last_account: Some((a.0, a.1)), current: Some(a), single_retry: 0, refreshed: false, ..s },
                    Seq::empty(),
                    RequestView::Send,
                )
            },
        },
        EventView::Sent(r) => {
            let a = s.current->Some_0;
            match r {
                Err(m) => {
                    let n = next_account(c, s, 502, m, "upstream_network"@);
                    (
                        n.0,
                        if s.refreshed { Seq::empty() } else { seq![EffectView::MarkFailure(a.0, Some(502), Some("upstream_network"@), m)] },
                        n.1,
                    )
                },
                Ok((status, body)) => sent_answer(c, s, a, status, body, now),
            }
        },
        EventView::Refreshed(r) => {
            let a = s.current->Some_0;
            match r {
                Err(m) => {
                    let n = next_account(c, s, 401, m, "auth_refresh_failed"@);
                    (n.0, seq![EffectView::Invalidate(a.0), EffectView::MarkFailure(a.0, Some(401), Some("auth_refresh_failed"@), m)], n.1)
                },
                Ok(b) => (StateView { phase: PoolPhase::AwaitSend, current: Some(b), refreshed: true, ..s }, Seq::empty(), RequestView::Send),
            }
        },
        EventView::Slept => if s.phase == PoolPhase::RetryWait {
            (StateView { phase: PoolPhase::AwaitSend, ..s }, Seq::empty(), RequestView::Send)
        } else {
            (StateView { phase: PoolPhase::AwaitOrder, retry_round: (s.retry_round + 1) as u64, ..s }, Seq::empty(), RequestView::OrderRound)
        },
    }
}

/// What one step of the pool does in the cases that decide a request:
/// - a request with no accounts fails with 503;
/// - a candidate with no cooldown is prepared next, as one more try;
/// - a free-plan account where free accounts are restricted is never sent,
///   and is marked as restricted;
/// - a prepared account is sent;
/// - a success answers with the account that served it, clears its cooldown
///   and marks it healthy;
/// - a rate-limited answer with a retry time (cooling on) puts the account
///   in cooldown for that many seconds, in milliseconds;
/// - a first 401 for an account that can refresh asks for the refresh.
pub proof fn lemma_pool_step_cases(c: ConfigView, s: StateView, e: EventView, now: i64)
    requires
        pool_wf(c, s),
        pool_expects(s.phase, e),
    ensures
        ({
            let r = pool_step(c, s, e, now);
            let prepared = e->Prepared_0->Ok_0;
            let status = e->Sent_0->Ok_0.0;
            let body = e->Sent_0->Ok_0.1;
            let a = s.current->Some_0;
            &&& (e is Begin && c.total == 0) ==> (r.2 is Fail && r.2->Fail_0 == 503)
            &&& e == EventView::Cooldown(None) ==> r.2 == RequestView::Prepare(s.order[s.pos]) && r.0.attempts
                == s.attempts + 1
            &&& (e is Prepared && e->Prepared_0 is Ok && c.restrict_free && prepared.4) ==> (r.2 !is Send && r.1
                == seq![
                EffectView::MarkFailure(prepared.0, None, Some("free_account_restricted"@), "Free 账号不支持加入本地接入"@),
            ])
            &&& (e is Prepared && e->Prepared_0 is Ok && !(c.restrict_free && prepared.4)) ==> r.2 == RequestView::Send
                && r.0.current == Some(prepared)
            &&& (e is Sent && e->Sent_0 is Ok && 200 <= status <= 299) ==> (r.2 == RequestView::Succeed(a.0, a.1)
                && r.1 == seq![EffectView::ClearCooldown(a.0), EffectView::MarkSuccess(a.0)])
            &&& (e is Sent && e->Sent_0 is Ok && status == 429 && !c.disable_cooling && retry_after(status, body, now)
                is Some && retry_after(status, body, now)->Some_0 <= u64::MAX / 1000) ==> r.1.contains(
                EffectView::SetCooldown(a.0, (retry_after(status, body, now)->Some_0 * 1000) as u64),
            )
            &&& (e is Sent && e->Sent_0 is Ok && status == 401 && !s.refreshed && !a.2 && a.3) ==> r.2
                == RequestView::Refresh(a.0)
        }),
{
    let r = pool_step(c, s, e, now);
    if let EventView::Sent(Ok((status, body))) = e {
        if status == 429 && !c.disable_cooling && retry_after(status, body, now) is Some {
            let secs = retry_after(status, body, now)->Some_0;
            let a = s.current->Some_0;
            if secs <= u64::MAX / 1000 {
                let ms = seconds_ms(secs);
                assert(ms == (secs * 1000) as u64);
                let category = error_category(status, body, now);
                let image = category == Some("image_generation_not_enabled"@);
                let message = if image { image_disabled_message(a.1) } else { upstream_error_summary(status, body) };
                let mark = EffectView::MarkFailure(a.0, Some(status), category, message);
                assert(r == failed_answer(c, s, a, status, body, now));
                assert(seq![mark, EffectView::SetCooldown(a.0, ms)][1] == EffectView::SetCooldown(a.0, ms));
            }
        }
    }
}

/// The state of a request before it begins.
pub open spec fn initial_state() -> StateView {
    StateView {
        phase: PoolPhase::Start,
        attempts: 0,
        retry_round: 0,
        order: Seq::empty(),
        pos: 0,
        attempted_in_round: false,
        round_wait: None,
        current: None,
        single_retry: 0,
        refreshed: false,
        last_status: 503,
        last_error: "本地接入集合暂无可用账号"@,
        last_category: None,
        last_account: None,
    }
}

/// The counters stay below their limits.
pub open spec fn counts_wf(c: ConfigView, s: StateView) -> bool {
    &&& 0 <= s.pos <= s.order.len()
    &&& s.attempts <= c.max_attempts
    &&& c.max_attempts <= 8
    &&& s.retry_round <= 1
    &&& s.single_retry <= 2
}

/// What the pool holds while it waits for each kind of event: a candidate
/// while cooling or preparing, an account while sending or refreshing, and
/// counters that stay below their limits.
pub open spec fn pool_wf(c: ConfigView, s: StateView) -> bool {
    &&& counts_wf(c, s)
    &&& (s.phase == PoolPhase::RoundWait ==> s.retry_round == 0)
    &&& (s.phase == PoolPhase::AwaitCooldown ==> s.pos < s.order.len() && s.attempts < c.max_attempts)
    &&& (s.phase == PoolPhase::AwaitPrepare ==> s.pos < s.order.len())
    &&& (s.phase == PoolPhase::AwaitSend || s.phase == PoolPhase::AwaitRefresh || s.phase == PoolPhase::RetryWait ==> s.current is Some && s.pos < s.order.len())
}


// ---------------------------------------------------------------------------
// Executing the step
// ---------------------------------------------------------------------------

/// The state of a request before it begins.
pub fn pool_initial_state() -> (r: PoolState)
    ensures
        state_view(r) == initial_state(),
{
    let r = PoolState {
        phase: PoolPhase::Start,
        attempts: 0,
        retry_round: 0,
        order: Vec::new(),
        pos: 0,
        attempted_in_round: false,
        round_wait: None,
        current: None,
        single_retry: 0,
        refreshed: false,
        last_status: 503,
        last_error: lit("本地接入集合暂无可用账号"),
        last_category: None,
        last_account: None,
    };
    assert(texts(r.order@) =~= Seq::<Seq<char>>::empty());
    r
}

/// What the caller does: the changes to apply, then the next request.
pub struct PoolAction {
    pub effects: Vec<PoolEffect>,
    pub next: PoolRequest,
}

fn copy_account(a: &PoolAccount) -> (r: PoolAccount)
    ensures
        account_view(r) == account_view(*a),
{
    PoolAccount {
        id: copy_string(&a.id),
        email: copy_string(&a.email),
        is_api_key: a.is_api_key,
        has_refresh_token: a.has_refresh_token,
        free_plan: a.free_plan,
    }
}

fn final_failure_exec(c: &PoolConfig, s: &PoolState, wait: Option<u64>) -> (r: PoolRequest)
    ensures
        request_view(r) == final_failure(config_view(*c), state_view(*s), wait),
{
    let status = if s.last_status == 503 && wait.is_some() { 429 } else { s.last_status };
    let message = match wait {
        Some(w) => if s.last_status == 429 || s.last_status == 503 {
            build_cooldown_unavailable_message(c.model_key.as_str(), w)
        } else {
            copy_string(&s.last_error)
        },
        None => copy_string(&s.last_error),
    };
    let (account_id, account_email) = match &s.last_account {
        Some((id, email)) => (Some(copy_string(id)), Some(copy_string(email))),
        None => (None, None),
    };
    PoolRequest::Fail { status, message, account_id, account_email, category: copy_opt_string(&s.last_category) }
}

fn advance_exec(c: &PoolConfig, mut s: PoolState) -> (r: (PoolState, PoolRequest))
    requires
        counts_wf(config_view(*c), state_view(s)),
    ensures
        (state_view(r.0), request_view(r.1)) == advance(config_view(*c), state_view(s)),
        pool_wf(config_view(*c), state_view(r.0)),
{
    if s.pos < s.order.len() && s.attempts < c.max_attempts {
        let id = copy_string(&s.order[s.pos]);
        if c.disable_cooling {
            s.phase = PoolPhase::AwaitPrepare;
            s.attempted_in_round = true;
            s.attempts = s.attempts + 1;
            (s, PoolRequest::Prepare(id))
        } else {
            s.phase = PoolPhase::AwaitCooldown;
            (s, PoolRequest::CheckCooldown(id))
        }
    } else {
        match s.round_wait {
            None => {
                let f = final_failure_exec(c, &s, None);
                s.phase = PoolPhase::Done;
                (s, f)
            },
            Some(w) => if s.attempts >= c.max_attempts || s.retry_round >= 1 || w > c.max_retry_wait_ms {
                if !s.attempted_in_round {
                    let f = PoolRequest::Fail {
                        status: 429,
                        message: build_cooldown_unavailable_message(c.model_key.as_str(), w),
                        account_id: copy_opt_string(&c.affinity_account_id),
                        account_email: None,
                        category: Some(lit("cooldown")),
                    };
                    s.phase = PoolPhase::Done;
                    (s, f)
                } else {
                    let f = final_failure_exec(c, &s, Some(w));
                    s.phase = PoolPhase::Done;
                    (s, f)
                }
            } else {
                s.phase = PoolPhase::RoundWait;
                (s, PoolRequest::Sleep(w))
            },
        }
    }
}

fn next_account_exec(c: &PoolConfig, mut s: PoolState, status: u16, error: String, category: &str) -> (r: (
    PoolState,
    PoolRequest,
))
    requires
        pool_wf(config_view(*c), state_view(s)),
        s.pos < s.order@.len(),
    ensures
        (state_view(r.0), request_view(r.1)) == next_account(config_view(*c), state_view(s), status, error@, category@),
        pool_wf(config_view(*c), state_view(r.0)),
{
    let ghost before = state_view(s);
    assert(texts(s.order@).len() == s.order@.len());
    let n: usize = s.order.len();
    assert(s.pos < n);
    s.last_status = status;
    s.last_error = error;
    s.last_category = Some(lit(category));
    s.pos = s.pos + 1;
    s.current = None;
    assert(state_view(s) == StateView {
        last_status: status,
        last_error: error@,
        last_category: Some(category@),
        pos: before.pos + 1,
        current: None,
        ..before
    });
    advance_exec(c, s)
}

fn image_disabled_message_exec(email: &str) -> (r: String)
    ensures
        r@ == image_disabled_message(email@),
{
    let t = trim_vec(&chars_of(email));
    if t.len() == 0 {
        lit("当前上游账号未启用图片生成能力。请在 API 服务里将 image_generation 改为“仅图片接口启用”或“禁用”，或换用具备图片能力的账号。")
    } else {
        let head = concat_str("账号 ", crate::text::string_of(&t).as_str());
        concat_str(
            head.as_str(),
            " 未启用图片生成能力。请在 API 服务里将 image_generation 改为“仅图片接口启用”或“禁用”，或换用具备图片能力的账号。",
        )
    }
}

fn seconds_ms_exec(x: u64) -> (r: u64)
    ensures
        r == seconds_ms(x),
{
    if x > u64::MAX / 1000 { u64::MAX } else { x * 1000 }
}

fn failed_answer_exec(c: &PoolConfig, mut s: PoolState, a: &PoolAccount, status: u16, body: &str, now: i64) -> (r: (
    PoolState,
    PoolAction,
))
    requires
        pool_wf(config_view(*c), state_view(s)),
        s.pos < s.order@.len(),
        s.current is Some,
    ensures
        (state_view(r.0), effects_view(r.1.effects@), request_view(r.1.next)) == failed_answer(
            config_view(*c),
            state_view(s),
            account_view(*a),
            status,
            body@,
            now,
        ),
        pool_wf(config_view(*c), state_view(r.0)),
{
    let ghost cv = config_view(*c);
    let ghost sv = state_view(s);
    let category = match classify_upstream_error_category_at(status, body, now) {
        Some(x) => Some(lit(x)),
        None => None,
    };
    let image = match &category {
        Some(x) => crate::text::str_eq(x.as_str(), "image_generation_not_enabled"),
        None => false,
    };
    let message = if image { image_disabled_message_exec(a.email.as_str()) } else { summarize_upstream_error(status, body) };
    let mut effects: Vec<PoolEffect> = Vec::new();
    effects.push(PoolEffect::MarkFailure {
        account_id: copy_string(&a.id),
        status: Some(status),
        category: copy_opt_string(&category),
        message: copy_string(&message),
    });
    if !c.disable_cooling {
        match parse_codex_retry_after_at(status, body, now) {
            Some(secs) => {
                let ms = seconds_ms_exec(secs);
                effects.push(PoolEffect::SetCooldown { account_id: copy_string(&a.id), wait_ms: ms });
                s.round_wait = match s.round_wait {
                    Some(cur) => if cur <= ms { Some(cur) } else { Some(ms) },
                    None => Some(ms),
                };
            },
            None => {},
        }
    }
    proof {
        let mark = EffectView::MarkFailure(a.id@, Some(status), opt_string_text(category), message@);
        if !c.disable_cooling && retry_after(status, body@, now) is Some {
            let ms = seconds_ms(retry_after(status, body@, now)->Some_0);
            assert(effects_view(effects@) =~= seq![mark, EffectView::SetCooldown(a.id@, ms)]);
        } else {
            assert(effects_view(effects@) =~= seq![mark]);
        }
    }
    if c.total == 1 && s.single_retry < 2 && should_retry_single_account_upstream_status(status) {
        let n = s.single_retry + 1;
        s.phase = PoolPhase::RetryWait;
        s.single_retry = n;
        s.refreshed = false;
        let delay = single_account_status_retry_delay(n as usize);
        (s, PoolAction { effects, next: PoolRequest::Sleep(delay) })
    } else if should_try_next_account(status, body) {
        let error = if image {
            message
        } else {
            let head = concat_str(concat_str("账号 ", a.email.as_str()).as_str(), " 当前不可用，已尝试轮转: ");
            concat_str(head.as_str(), message.as_str())
        };
        let ghost s1 = state_view(s);
        assert(texts(s.order@).len() == s.order@.len());
        s.last_status = status;
        s.last_error = error;
        s.last_category = category;
        let len_now: usize = s.order.len();
        assert(s.pos < len_now);
        s.pos = s.pos + 1;
        s.current = None;
        assert(state_view(s) == StateView {
            last_status: status,
            last_error: error@,
            last_category: opt_string_text(category),
            pos: s1.pos + 1,
            current: None,
            ..s1
        });
        let (ns, next) = advance_exec(c, s);
        (ns, PoolAction { effects, next })
    } else {
        s.phase = PoolPhase::Done;
        let next = PoolRequest::Fail {
            status,
            message,
            account_id: Some(copy_string(&a.id)),
            account_email: Some(copy_string(&a.email)),
            category,
        };
        (s, PoolAction { effects, next })
    }
}

fn auth_failure_exec(c: &PoolConfig, s: PoolState, a: &PoolAccount, message: &str, error: String) -> (r: (
    PoolState,
    PoolAction,
))
    requires
        pool_wf(config_view(*c), state_view(s)),
        s.pos < s.order@.len(),
    ensures
        state_view(r.0) == next_account(config_view(*c), state_view(s), 401, error@, "auth_unavailable"@).0,
        request_view(r.1.next) == next_account(config_view(*c), state_view(s), 401, error@, "auth_unavailable"@).1,
        effects_view(r.1.effects@) == seq![
            EffectView::Invalidate(a.id@),
            EffectView::MarkFailure(a.id@, Some(401), Some("auth_unavailable"@), message@),
        ],
        pool_wf(config_view(*c), state_view(r.0)),
{
    let mut effects: Vec<PoolEffect> = Vec::new();
    effects.push(PoolEffect::Invalidate(copy_string(&a.id)));
    effects.push(PoolEffect::MarkFailure {
        account_id: copy_string(&a.id),
        status: Some(401),
        category: Some(lit("auth_unavailable")),
        message: lit(message),
    });
    assert(effects_view(effects@) =~= seq![
        EffectView::Invalidate(a.id@),
        EffectView::MarkFailure(a.id@, Some(401), Some("auth_unavailable"@), message@),
    ]);
    let (ns, next) = next_account_exec(c, s, 401, error, "auth_unavailable");
    (ns, PoolAction { effects, next })
}

fn sent_answer_exec(c: &PoolConfig, mut s: PoolState, a: &PoolAccount, status: u16, body: &str, now: i64) -> (r: (
    PoolState,
    PoolAction,
))
    requires
        pool_wf(config_view(*c), state_view(s)),
        s.pos < s.order@.len(),
        s.current is Some,
    ensures
        (state_view(r.0), effects_view(r.1.effects@), request_view(r.1.next)) == sent_answer(
            config_view(*c),
            state_view(s),
            account_view(*a),
            status,
            body@,
            now,
        ),
        pool_wf(config_view(*c), state_view(r.0)),
{
    if status == 401 && !s.refreshed && a.is_api_key {
        let error = concat_str(concat_str("API Key 账号 ", a.email.as_str()).as_str(), " 上游鉴权失败");
        auth_failure_exec(c, s, a, "API Key 账号上游鉴权失败", error)
    } else if status == 401 && !s.refreshed && !a.has_refresh_token {
        let error = concat_str(concat_str("账号 ", a.email.as_str()).as_str(), " 当前 access_token 已被上游拒绝");
        auth_failure_exec(c, s, a, "access-token-only 账号的 access_token 已被上游拒绝", error)
    } else if status == 401 && !s.refreshed {
        s.phase = PoolPhase::AwaitRefresh;
        let effects: Vec<PoolEffect> = Vec::new();
        assert(effects_view(effects@) =~= Seq::<EffectView>::empty());
        (s, PoolAction { effects, next: PoolRequest::Refresh(copy_string(&a.id)) })
    } else if status == 401 {
        let error = concat_str(concat_str("账号 ", a.email.as_str()).as_str(), " 鉴权失败");
        auth_failure_exec(c, s, a, "账号鉴权失败", error)
    } else if 200 <= status && status <= 299 {
        s.phase = PoolPhase::Done;
        let mut effects: Vec<PoolEffect> = Vec::new();
        effects.push(PoolEffect::ClearCooldown(copy_string(&a.id)));
        effects.push(PoolEffect::MarkSuccess(copy_string(&a.id)));
        assert(effects_view(effects@) =~= seq![EffectView::ClearCooldown(a.id@), EffectView::MarkSuccess(a.id@)]);
        (s, PoolAction { effects, next: PoolRequest::Succeed { account_id: copy_string(&a.id), account_email: copy_string(&a.email) } })
    } else {
        failed_answer_exec(c, s, a, status, body, now)
    }
}

fn no_effects() -> (r: Vec<PoolEffect>)
    ensures
        effects_view(r@) == Seq::<EffectView>::empty(),
{
    let r: Vec<PoolEffect> = Vec::new();
    assert(effects_view(r@) =~= Seq::<EffectView>::empty());
    r
}

/// One step of the pool at time `now`: what the caller handed back moves the
/// request on; the result is the new state, the changes to the routing
/// state, and what the caller does next.
pub fn account_pool_step_at(c: &PoolConfig, state: PoolState, event: PoolEvent, now: i64) -> (r: (PoolState, PoolAction))
    requires
        pool_wf(config_view(*c), state_view(state)),
        pool_expects(state.phase, event_view(event)),
    ensures
        (state_view(r.0), effects_view(r.1.effects@), request_view(r.1.next)) == pool_step(
            config_view(*c),
            state_view(state),
            event_view(event),
            now,
        ),
        pool_wf(config_view(*c), state_view(r.0)),
{
    let mut s = state;
    let ghost sv = state_view(s);
    assert(texts(s.order@).len() == s.order@.len());
    match event {
        PoolEvent::Begin(r) => {
            if c.total == 0 {
                s.phase = PoolPhase::Done;
                let next = PoolRequest::Fail {
                    status: 503,
                    message: lit("本地接入集合暂无账号"),
                    account_id: None,
                    account_email: None,
                    category: Some(lit("no_accounts")),
                };
                return (s, PoolAction { effects: no_effects(), next });
            }
            match r {
                Err(m) => {
                    s.phase = PoolPhase::Done;
                    let next = PoolRequest::Fail {
                        status: 400,
                        message: m,
                        account_id: None,
                        account_email: None,
                        category: Some(lit("bad_request")),
                    };
                    (s, PoolAction { effects: no_effects(), next })
                },
                Ok(_) => {
                    s.phase = PoolPhase::AwaitOrder;
                    (s, PoolAction { effects: no_effects(), next: PoolRequest::OrderRound })
                },
            }
        },
        PoolEvent::Ordered(ids) => {
            s.order = ids;
            s.pos = 0;
            s.attempted_in_round = false;
            s.round_wait = None;
            let (ns, next) = advance_exec(c, s);
            (ns, PoolAction { effects: no_effects(), next })
        },
        PoolEvent::Cooldown(w) => match w {
            Some(x) => {
                s.round_wait = match s.round_wait {
                    Some(cur) => if cur <= x { Some(cur) } else { Some(x) },
                    None => Some(x),
                };
                let len_now: usize = s.order.len();
                assert(s.pos < len_now);
                s.pos = s.pos + 1;
                let (ns, next) = advance_exec(c, s);
                (ns, PoolAction { effects: no_effects(), next })
            },
            None => {
                let id = copy_string(&s.order[s.pos]);
                s.phase = PoolPhase::AwaitPrepare;
                s.attempted_in_round = true;
                s.attempts = s.attempts + 1;
                (s, PoolAction { effects: no_effects(), next: PoolRequest::Prepare(id) })
            },
        },
        PoolEvent::Prepared(r) => match r {
            Err(m) => {
                let mut effects: Vec<PoolEffect> = Vec::new();
                effects.push(PoolEffect::Invalidate(copy_string(&s.order[s.pos])));
                assert(effects_view(effects@) =~= seq![EffectView::Invalidate(sv.order[sv.pos])]);
                s.last_error = m;
                s.last_category = Some(lit("account_prepare_failed"));
                let len_now: usize = s.order.len();
                assert(s.pos < len_now);
                s.pos = s.pos + 1;
                let (ns, next) = advance_exec(c, s);
                (ns, PoolAction { effects, next })
            },
            Ok(a) => {
                if c.restrict_free && a.free_plan {
                    let mut effects: Vec<PoolEffect> = Vec::new();
                    effects.push(PoolEffect::MarkFailure {
                        account_id: copy_string(&a.id),
                        status: None,
                        category: Some(lit("free_account_restricted")),
                        message: lit("Free 账号不支持加入本地接入"),
                    });
                    assert(effects_view(effects@) =~= seq![
                        EffectView::MarkFailure(a.id@, None, Some("free_account_restricted"@), "Free 账号不支持加入本地接入"@),
                    ]);
                    s.last_error = lit("Free 账号不支持加入本地接入");
                    s.last_category = Some(lit("free_account_restricted"));
                    let len_now: usize = s.order.len();
                    assert(s.pos < len_now);
                    s.pos = s.pos + 1;
                    let (ns, next) = advance_exec(c, s);
                    (ns, PoolAction { effects, next })
                } else {
                    s.phase = PoolPhase::AwaitSend;
                    s.last_account = Some((copy_string(&a.id), copy_string(&a.email)));
                    s.current = Some(a);
                    s.single_retry = 0;
                    s.refreshed = false;
                    (s, PoolAction { effects: no_effects(), next: PoolRequest::Send })
                }
            },
        },
        PoolEvent::Sent(r) => {
            let a = match &s.current {
                Some(a) => copy_account(a),
                None => {
                    assert(false);
                    return (s, PoolAction { effects: no_effects(), next: PoolRequest::Send });
                },
            };
            match r {
                Err(m) => {
                    let mut effects: Vec<PoolEffect> = Vec::new();
                    if !s.refreshed {
                        effects.push(PoolEffect::MarkFailure {
                            account_id: copy_string(&a.id),
                            status: Some(502),
                            category: Some(lit("upstream_network")),
                            message: copy_string(&m),
                        });
                        assert(effects_view(effects@) =~= seq![
                            EffectView::MarkFailure(a.id@, Some(502), Some("upstream_network"@), m@),
                        ]);
                    } else {
                        assert(effects_view(effects@) =~= Seq::<EffectView>::empty());
                    }
                    let (ns, next) = next_account_exec(c, s, 502, m, "upstream_network");
                    (ns, PoolAction { effects, next })
                },
                Ok((status, body)) => sent_answer_exec(c, s, &a, status, body.as_str(), now),
            }
        },
        PoolEvent::Refreshed(r) => {
            let a = match &s.current {
                Some(a) => copy_account(a),
                None => {
                    assert(false);
                    return (s, PoolAction { effects: no_effects(), next: PoolRequest::Send });
                },
            };
            match r {
                Err(m) => {
                    let mut effects: Vec<PoolEffect> = Vec::new();
                    effects.push(PoolEffect::Invalidate(copy_string(&a.id)));
                    effects.push(PoolEffect::MarkFailure {
                        account_id: copy_string(&a.id),
                        status: Some(401),
                        category: Some(lit("auth_refresh_failed")),
                        message: copy_string(&m),
                    });
                    assert(effects_view(effects@) =~= seq![
                        EffectView::Invalidate(a.id@),
                        EffectView::MarkFailure(a.id@, Some(401), Some("auth_refresh_failed"@), m@),
                    ]);
                    let (ns, next) = next_account_exec(c, s, 401, m, "auth_refresh_failed");
                    (ns, PoolAction { effects, next })
                },
                Ok(b) => {
                    s.phase = PoolPhase::AwaitSend;
                    s.current = Some(b);
                    s.refreshed = true;
                    (s, PoolAction { effects: no_effects(), next: PoolRequest::Send })
                },
            }
        },
        PoolEvent::Slept => {
            if s.phase == PoolPhase::RetryWait {
                s.phase = PoolPhase::AwaitSend;
                (s, PoolAction { effects: no_effects(), next: PoolRequest::Send })
            } else {
                s.phase = PoolPhase::AwaitOrder;
                s.retry_round = s.retry_round + 1;
                (s, PoolAction { effects: no_effects(), next: PoolRequest::OrderRound })
            }
        },
    }
}


/// One step of the pool, now: what `pool_step` gives at the clock's reading.
pub fn account_pool_step(c: &PoolConfig, state: PoolState, event: PoolEvent) -> (r: (PoolState, PoolAction))
    requires
        pool_wf(config_view(*c), state_view(state)),
        pool_expects(state.phase, event_view(event)),
    ensures
        exists|now: i64|
            (state_view(r.0), effects_view(r.1.effects@), request_view(r.1.next)) == #[trigger] pool_step(
                config_view(*c),
                state_view(state),
                event_view(event),
                now,
            ),
        pool_wf(config_view(*c), state_view(r.0)),
{
    let now = crate::clock::now_seconds();
    account_pool_step_at(c, state, event, now)
}

/// A request starts within the limits: the settings never allow more than
/// eight tries, and no try, round or retry has been made.
pub proof fn lemma_pool_starts_within_limits(total: u64, configured: u16, c: ConfigView)
    requires
        c.max_attempts == max_attempts_for(total, configured),
    ensures
        1 <= c.max_attempts <= 8,
        pool_wf(c, initial_state()),
{
}

} // verus!
