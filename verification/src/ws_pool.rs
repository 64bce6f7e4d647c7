//! Opening an upstream WebSocket over the account pool, as a state machine:
//! one round over the ordered accounts, skipping those that cool down, with
//! a refresh and one more connect after an authentication failure; the
//! caller orders, checks, prepares, connects and refreshes as asked.
use vstd::prelude::*;
use crate::pool::{
    PoolAccount, PoolEffect, EffectView, AccountView, account_view, effects_view, opt_pair_view,
};
use crate::text::{lit, concat_str, copy_string, copy_opt_string, opt_string_text, texts};

verus! {

broadcast use vstd::string::group_string_axioms;

/// What the bridge waits for.
#[derive(PartialEq, Eq, Structural)]
pub enum WsPhase {
    Start,
    AwaitOrder,
    AwaitCooldown,
    AwaitPrepare,
    AwaitConnect,
    AwaitRefresh,
    AwaitReconnect,
    Done,
}

/// Why a connect failed: the handshake status where there was one, the
/// message and the category.
pub struct WsConnectFailure {
    pub status: Option<u16>,
    pub message: String,
    pub category: String,
}

/// Where one WebSocket dispatch stands.
pub struct WsState {
    pub phase: WsPhase,
    pub max_attempts: u64,
    pub disable_cooling: bool,
    pub restrict_free: bool,
    pub attempts: u64,
    pub order: Vec<String>,
    pub pos: usize,
    pub current: Option<PoolAccount>,
    pub last_status: u16,
    pub last_error: String,
    pub last_category: Option<String>,
    pub last_account: Option<(String, String)>,
}

/// What the caller hands back.
pub enum WsEvent {
    /// The dispatch begins: the number of accounts, and the error where the
    /// target has no upstream.
    Begin(u64, Result<(), String>),
    Ordered(Vec<String>),
    Cooldown(Option<u64>),
    Prepared(Result<PoolAccount, String>),
    Connected(Result<(), WsConnectFailure>),
    Refreshed(Result<PoolAccount, String>),
}

/// What the caller does next.
pub enum WsRequest {
    OrderAccounts,
    CheckCooldown(String),
    Prepare(String),
    Connect,
    Refresh(String),
    Succeed { account_id: String, account_email: String },
    Fail { status: u16, message: String, account_id: Option<String>, account_email: Option<String>, category: Option<String> },
}

pub struct WsView {
    pub phase: WsPhase,
    pub max_attempts: u64,
    pub disable_cooling: bool,
    pub restrict_free: bool,
    pub attempts: u64,
    pub order: Seq<Seq<char>>,
    pub pos: int,
    pub current: Option<AccountView>,
    pub last_status: u16,
    pub last_error: Seq<char>,
    pub last_category: Option<Seq<char>>,
    pub last_account: Option<(Seq<char>, Seq<char>)>,
}

pub open spec fn ws_view(s: WsState) -> WsView {
    WsView {
        phase: s.phase,
        max_attempts: s.max_attempts,
        disable_cooling: s.disable_cooling,
        restrict_free: s.restrict_free,
        attempts: s.attempts,
        order: texts(s.order@),
        pos: s.pos as int,
        current: match s.current { Some(a) => Some(account_view(a)), None => None },
        last_status: s.last_status,
        last_error: s.last_error@,
        last_category: opt_string_text(s.last_category),
        last_account: opt_pair_view(s.last_account),
    }
}

pub enum WsEventView {
    Begin(u64, Result<(), Seq<char>>),
    Ordered(Seq<Seq<char>>),
    Cooldown(Option<u64>),
    Prepared(Result<AccountView, Seq<char>>),
    Connected(Result<(), (Option<u16>, Seq<char>, Seq<char>)>),
    Refreshed(Result<AccountView, Seq<char>>),
}

pub open spec fn ws_event_view(e: WsEvent) -> WsEventView {
    match e {
        WsEvent::Begin(n, r) => WsEventView::Begin(n, match r { Ok(_) => Ok(()), Err(m) => Err(m@) }),
        WsEvent::Ordered(ids) => WsEventView::Ordered(texts(ids@)),
        WsEvent::Cooldown(w) => WsEventView::Cooldown(w),
        WsEvent::Prepared(r) => WsEventView::Prepared(match r { Ok(a) => Ok(account_view(a)), Err(m) => Err(m@) }),
        WsEvent::Connected(r) => WsEventView::Connected(match r {
            Ok(_) => Ok(()),
            Err(f) => Err((f.status, f.message@, f.category@)),
        }),
        WsEvent::Refreshed(r) => WsEventView::Refreshed(match r { Ok(a) => Ok(account_view(a)), Err(m) => Err(m@) }),
    }
}

pub enum WsRequestView {
    OrderAccounts,
    CheckCooldown(Seq<char>),
    Prepare(Seq<char>),
    Connect,
    Refresh(Seq<char>),
    Succeed(Seq<char>, Seq<char>),
    Fail(u16, Seq<char>, Option<Seq<char>>, Option<Seq<char>>, Option<Seq<char>>),
}

pub open spec fn ws_request_view(r: WsRequest) -> WsRequestView {
    match r {
        WsRequest::OrderAccounts => WsRequestView::OrderAccounts,
        WsRequest::CheckCooldown(id) => WsRequestView::CheckCooldown(id@),
        WsRequest::Prepare(id) => WsRequestView::Prepare(id@),
        WsRequest::Connect => WsRequestView::Connect,
        WsRequest::Refresh(id) => WsRequestView::Refresh(id@),
        WsRequest::Succeed { account_id, account_email } => WsRequestView::Succeed(account_id@, account_email@),
        WsRequest::Fail { status, message, account_id, account_email, category } => WsRequestView::Fail(
            status,
            message@,
            opt_string_text(account_id),
            opt_string_text(account_email),
            opt_string_text(category),
        ),
    }
}

/// The dispatch before it begins, with its settings: how many accounts it
/// may try, and whether cooldowns and the free-plan rule apply.
pub open spec fn ws_initial(max_attempts: u64, disable_cooling: bool, restrict_free: bool) -> WsView {
    WsView {
        phase: WsPhase::Start,
        max_attempts,
        disable_cooling,
        restrict_free,
        attempts: 0,
        order: Seq::empty(),
        pos: 0,
        current: None,
        last_status: 502,
        last_error: "本地接入集合暂无可用账号"@,
        last_category: None,
        last_account: None,
    }
}

/// Going on with the accounts: the next candidate, unless they are all
/// tried or the tries are used up; then the last failure is the answer.
pub open spec fn ws_advance(s: WsView) -> (WsView, WsRequestView) {
    if s.pos < s.order.len() && s.attempts < s.max_attempts {
        let id = s.order[s.pos];
        if s.disable_cooling {
            (WsView { phase: WsPhase::AwaitPrepare, attempts: (s.attempts + 1) as u64, ..s }, WsRequestView::Prepare(id))
        } else {
            (WsView { phase: WsPhase::AwaitCooldown, ..s }, WsRequestView::CheckCooldown(id))
        }
    } else {
        (
            WsView { phase: WsPhase::Done, ..s },
            WsRequestView::Fail(
                s.last_status,
                s.last_error,
                match s.last_account { Some((id, _)) => Some(id), None => None },
                match s.last_account { Some((_, email)) => Some(email), None => None },
                s.last_category,
            ),
        )
    }
}

/// The candidate failed: record why and go on.
pub open spec fn ws_next(s: WsView, status: u16, error: Seq<char>, category: Seq<char>) -> (WsView, WsRequestView) {
    ws_advance(WsView { last_status: status, last_error: error, last_category: Some(category), pos: s.pos + 1, current: None, ..s })
}

/// What a failed connect does; `retried` after a refresh.
pub open spec fn ws_failed(s: WsView, a: AccountView, f: (Option<u16>, Seq<char>, Seq<char>), retried: bool) -> (WsView, Seq<EffectView>, WsRequestView) {
    let status = match f.0 { Some(x) => x, None => 502 };
    let auth = |message: Seq<char>, error: Seq<char>| {
        let n = ws_next(s, status, error, "auth_unavailable"@);
        (n.0, seq![EffectView::Invalidate(a.0), EffectView::MarkFailure(a.0, Some(status), Some("auth_unavailable"@), message)], n.1)
    };
    if retried {
        if status == 401 {
            let n = ws_next(s, 401, "账号 "@ + a.1 + " WebSocket 鉴权失败"@, "auth_unavailable"@);
            (n.0, seq![EffectView::Invalidate(a.0), EffectView::MarkFailure(a.0, Some(401), Some("auth_unavailable"@), f.1)], n.1)
        } else {
            let n = ws_next(s, status, f.1, f.2);
            (n.0, seq![EffectView::MarkFailure(a.0, Some(status), Some(f.2), f.1)], n.1)
        }
    } else if status == 401 && a.2 {
        auth("API Key 账号上游 WebSocket 鉴权失败"@, "API Key 账号 "@ + a.1 + " 上游 WebSocket 鉴权失败"@)
    } else if status == 401 && !a.3 {
        auth(
            "access-token-only 账号的 WebSocket access_token 已被上游拒绝"@,
            "账号 "@ + a.1 + " 当前 WebSocket access_token 已被上游拒绝"@,
        )
    } else if status == 401 {
        (WsView { phase: WsPhase::AwaitRefresh, ..s }, Seq::empty(), WsRequestView::Refresh(a.0))
    } else {
        let n = ws_next(s, status, f.1, f.2);
        (n.0, seq![EffectView::MarkFailure(a.0, Some(status), Some(f.2), f.1)], n.1)
    }
}

/// Whether the dispatch waits for this kind of event.
pub open spec fn ws_expects(phase: WsPhase, e: WsEventView) -> bool {
    match e {
        WsEventView::Begin(_, _) => phase == WsPhase::Start,
        WsEventView::Ordered(_) => phase == WsPhase::AwaitOrder,
        WsEventView::Cooldown(_) => phase == WsPhase::AwaitCooldown,
        WsEventView::Prepared(_) => phase == WsPhase::AwaitPrepare,
        WsEventView::Connected(_) => phase == WsPhase::AwaitConnect || phase == WsPhase::AwaitReconnect,
        WsEventView::Refreshed(_) => phase == WsPhase::AwaitRefresh,
    }
}

/// One step of the dispatch.
pub open spec fn ws_step(s: WsView, e: WsEventView) -> (WsView, Seq<EffectView>, WsRequestView) {
    match e {
        WsEventView::Begin(total, r) => if total == 0 {
            (WsView { phase: WsPhase::Done, ..s }, Seq::empty(), WsRequestView::Fail(503, "本地接入集合暂无账号"@, None, None, Some("no_accounts"@)))
        } else {
            match r {
                Err(m) => (WsView { phase: WsPhase::Done, ..s }, Seq::empty(), WsRequestView::Fail(400, m, None, None, Some("bad_request"@))),
                Ok(_) => (WsView { phase: WsPhase::AwaitOrder, ..s }, Seq::empty(), WsRequestView::OrderAccounts),
            }
        },
        WsEventView::Ordered(ids) => {
            let n = ws_advance(WsView { order: ids, pos: 0, ..s });
            (n.0, Seq::empty(), n.1)
        },
        WsEventView::Cooldown(w) => match w {
            Some(_) => {
                let n = ws_advance(WsView { pos: s.pos + 1, ..s });
                (n.0, Seq::empty(), n.1)
            },
            None => (
                WsView { phase: WsPhase::AwaitPrepare, attempts: (s.attempts + 1) as u64, ..s },
                Seq::empty(),
                WsRequestView::Prepare(s.order[s.pos]),
            ),
        },
        WsEventView::Prepared(r) => match r {
            Err(m) => {
                let n = ws_next(s, 502, m, "account_prepare_failed"@);
                (n.0, seq![EffectView::Invalidate(s.order[s.pos])], n.1)
            },
            Ok(a) => if s.restrict_free && a.4 {
                let msg = "Free 账号不支持加入本地接入"@;
                let n = ws_advance(WsView { last_error: msg, last_category: Some("free_account_restricted"@), pos: s.pos + 1, ..s });
                (n.0, seq![EffectView::MarkFailure(a.0, None, Some("free_account_restricted"@), msg)], n.1)
            } else {
                (
                    WsView { phase: WsPhase::AwaitConnect, last_account: Some((a.0, a.1)), current: Some(a), ..s },
                    Seq::empty(),
                    WsRequestView::Connect,
                )
            },
        },
        WsEventView::Connected(r) => {
            let a = s.current->Some_0;
            match r {
                Ok(_) => (WsView { phase: WsPhase::Done, ..s }, Seq::empty(), WsRequestView::Succeed(a.0, a.1)),
                Err(f) => ws_failed(s, a, f, s.phase == WsPhase::AwaitReconnect),
            }
        },
        WsEventView::Refreshed(r) => {
            let a = s.current->Some_0;
            match r {
                Err(m) => {
                    let n = ws_next(s, 401, m, "auth_refresh_failed"@);
                    (n.0, seq![EffectView::Invalidate(a.0), EffectView::MarkFailure(a.0, Some(401), Some("auth_refresh_failed"@), m)], n.1)
                },
                Ok(b) => (WsView { phase: WsPhase::AwaitReconnect, current: Some(b), ..s }, Seq::empty(), WsRequestView::Connect),
            }
        },
    }
}

/// What the dispatch holds between steps.
pub open spec fn ws_wf(s: WsView) -> bool {
    &&& 0 <= s.pos <= s.order.len()
    &&& s.attempts <= s.max_attempts
    &&& (s.phase == WsPhase::AwaitCooldown ==> s.pos < s.order.len() && s.attempts < s.max_attempts)
    &&& (s.phase == WsPhase::AwaitPrepare ==> s.pos < s.order.len())
    &&& (s.phase == WsPhase::AwaitConnect || s.phase == WsPhase::AwaitReconnect || s.phase == WsPhase::AwaitRefresh
        ==> s.current is Some && s.pos < s.order.len())
}

/// The dispatch before it begins.
pub fn ws_initial_state(max_attempts: u64, disable_cooling: bool, restrict_free: bool) -> (r: WsState)
    ensures
        ws_view(r) == ws_initial(max_attempts, disable_cooling, restrict_free),
{
    let r = WsState {
        phase: WsPhase::Start,
        max_attempts,
        disable_cooling,
        restrict_free,
        attempts: 0,
        order: Vec::new(),
        pos: 0,
        current: None,
        last_status: 502,
        last_error: lit("本地接入集合暂无可用账号"),
        last_category: None,
        last_account: None,
    };
    assert(texts(r.order@) =~= Seq::<Seq<char>>::empty());
    r
}

fn ws_advance_exec(mut s: WsState) -> (r: (WsState, WsRequest))
    requires
        0 <= ws_view(s).pos <= ws_view(s).order.len(),
        s.attempts <= s.max_attempts,
    ensures
        (ws_view(r.0), ws_request_view(r.1)) == ws_advance(ws_view(s)),
        ws_wf(ws_view(r.0)),
{
    if s.pos < s.order.len() && s.attempts < s.max_attempts {
        let id = copy_string(&s.order[s.pos]);
        if s.disable_cooling {
            s.phase = WsPhase::AwaitPrepare;
            s.attempts = s.attempts + 1;
            (s, WsRequest::Prepare(id))
        } else {
            s.phase = WsPhase::AwaitCooldown;
            (s, WsRequest::CheckCooldown(id))
        }
    } else {
        let (account_id, account_email) = match &s.last_account {
            Some((id, email)) => (Some(copy_string(id)), Some(copy_string(email))),
            None => (None, None),
        };
        let f = WsRequest::Fail {
            status: s.last_status,
            message: copy_string(&s.last_error),
            account_id,
            account_email,
            category: copy_opt_string(&s.last_category),
        };
        s.phase = WsPhase::Done;
        (s, f)
    }
}

fn ws_next_exec(mut s: WsState, status: u16, error: String, category: String) -> (r: (WsState, WsRequest))
    requires
        ws_wf(ws_view(s)),
        s.pos < s.order@.len(),
    ensures
        (ws_view(r.0), ws_request_view(r.1)) == ws_next(ws_view(s), status, error@, category@),
        ws_wf(ws_view(r.0)),
{
    let ghost before = ws_view(s);
    let n: usize = s.order.len();
    assert(s.pos < n);
    s.last_status = status;
    s.last_error = error;
    s.last_category = Some(category);
    s.pos = s.pos + 1;
    s.current = None;
    assert(ws_view(s) == WsView {
        last_status: status,
        last_error: error@,
        last_category: Some(category@),
        pos: before.pos + 1,
        current: None,
        ..before
    });
    ws_advance_exec(s)
}

fn copy_ws_account(a: &PoolAccount) -> (r: PoolAccount)
    ensures
        account_view(r) == account_view(*a),
{
    PoolAccount {
        id: copy_string(&a.id),
        email: copy_string(&a.email),
        is_api_key: a.is_api_key,
        has_refresh_token: a.has_refresh_token,
        free_plan: a.free_plan,
    }
}

fn ws_failed_exec(mut s: WsState, a: &PoolAccount, f: WsConnectFailure, retried: bool) -> (r: (WsState, Vec<PoolEffect>, WsRequest))
    requires
        ws_wf(ws_view(s)),
        s.pos < s.order@.len(),
        s.current is Some,
    ensures
        (ws_view(r.0), effects_view(r.1@), ws_request_view(r.2)) == ws_failed(
            ws_view(s),
            account_view(*a),
            (f.status, f.message@, f.category@),
            retried,
        ),
        ws_wf(ws_view(r.0)),
{
    let status: u16 = match f.status { Some(x) => x, None => 502 };
    let mut effects: Vec<PoolEffect> = Vec::new();
    if retried {
        if status == 401 {
            effects.push(PoolEffect::Invalidate(copy_string(&a.id)));
            effects.push(PoolEffect::MarkFailure {
                account_id: copy_string(&a.id),
                status: Some(401),
                category: Some(lit("auth_unavailable")),
                message: copy_string(&f.message),
            });
            assert(effects_view(effects@) =~= seq![
                EffectView::Invalidate(a.id@),
                EffectView::MarkFailure(a.id@, Some(401), Some("auth_unavailable"@), f.message@),
            ]);
            let error = concat_str(concat_str("账号 ", a.email.as_str()).as_str(), " WebSocket 鉴权失败");
            let (ns, next) = ws_next_exec(s, 401, error, lit("auth_unavailable"));
            (ns, effects, next)
        } else {
            effects.push(PoolEffect::MarkFailure {
                account_id: copy_string(&a.id),
                status: Some(status),
                category: Some(copy_string(&f.category)),
                message: copy_string(&f.message),
            });
            assert(effects_view(effects@) =~= seq![EffectView::MarkFailure(a.id@, Some(status), Some(f.category@), f.message@)]);
            let (ns, next) = ws_next_exec(s, status, f.message, f.category);
            (ns, effects, next)
        }
    } else if status == 401 && (a.is_api_key || !a.has_refresh_token) {
        let (message, error) = if a.is_api_key {
            (
                lit("API Key 账号上游 WebSocket 鉴权失败"),
                concat_str(concat_str("API Key 账号 ", a.email.as_str()).as_str(), " 上游 WebSocket 鉴权失败"),
            )
        } else {
            (
                lit("access-token-only 账号的 WebSocket access_token 已被上游拒绝"),
                concat_str(concat_str("账号 ", a.email.as_str()).as_str(), " 当前 WebSocket access_token 已被上游拒绝"),
            )
        };
        effects.push(PoolEffect::Invalidate(copy_string(&a.id)));
        effects.push(PoolEffect::MarkFailure {
            account_id: copy_string(&a.id),
            status: Some(status),
            category: Some(lit("auth_unavailable")),
            message: copy_string(&message),
        });
        assert(effects_view(effects@) =~= seq![
            EffectView::Invalidate(a.id@),
            EffectView::MarkFailure(a.id@, Some(status), Some("auth_unavailable"@), message@),
        ]);
        let (ns, next) = ws_next_exec(s, status, error, lit("auth_unavailable"));
        (ns, effects, next)
    } else if status == 401 {
        s.phase = WsPhase::AwaitRefresh;
        assert(effects_view(effects@) =~= Seq::<EffectView>::empty());
        (s, effects, WsRequest::Refresh(copy_string(&a.id)))
    } else {
        effects.push(PoolEffect::MarkFailure {
            account_id: copy_string(&a.id),
            status: Some(status),
            category: Some(copy_string(&f.category)),
            message: copy_string(&f.message),
        });
        assert(effects_view(effects@) =~= seq![EffectView::MarkFailure(a.id@, Some(status), Some(f.category@), f.message@)]);
        let (ns, next) = ws_next_exec(s, status, f.message, f.category);
        (ns, effects, next)
    }
}

fn no_ws_effects() -> (r: Vec<PoolEffect>)
    ensures
        effects_view(r@) == Seq::<EffectView>::empty(),
{
    let r: Vec<PoolEffect> = Vec::new();
    assert(effects_view(r@) =~= Seq::<EffectView>::empty());
    r
}

/// One step of the WebSocket dispatch: the new state, the changes to the
/// routing state, and what the caller does next.
pub fn websocket_bridge_step(state: WsState, event: WsEvent) -> (r: (WsState, Vec<PoolEffect>, WsRequest))
    requires
        ws_wf(ws_view(state)),
        ws_expects(state.phase, ws_event_view(event)),
    ensures
        (ws_view(r.0), effects_view(r.1@), ws_request_view(r.2)) == ws_step(ws_view(state), ws_event_view(event)),
        ws_wf(ws_view(r.0)),
{
    let mut s = state;
    let ghost sv = ws_view(s);
    assert(texts(s.order@).len() == s.order@.len());
    match event {
        WsEvent::Begin(total, r) => {
            if total == 0 {
                s.phase = WsPhase::Done;
                let next = WsRequest::Fail {
                    status: 503,
                    message: lit("本地接入集合暂无账号"),
                    account_id: None,
                    account_email: None,
                    category: Some(lit("no_accounts")),
                };
                return (s, no_ws_effects(), next);
            }
            match r {
                Err(m) => {
                    s.phase = WsPhase::Done;
                    let next = WsRequest::Fail { status: 400, message: m, account_id: None, account_email: None, category: Some(lit("bad_request")) };
                    (s, no_ws_effects(), next)
                },
                Ok(_) => {
                    s.phase = WsPhase::AwaitOrder;
                    (s, no_ws_effects(), WsRequest::OrderAccounts)
                },
            }
        },
        WsEvent::Ordered(ids) => {
            s.order = ids;
            s.pos = 0;
            let (ns, next) = ws_advance_exec(s);
            (ns, no_ws_effects(), next)
        },
        WsEvent::Cooldown(w) => match w {
            Some(_) => {
                let len_now: usize = s.order.len();
                assert(s.pos < len_now);
                s.pos = s.pos + 1;
                let (ns, next) = ws_advance_exec(s);
                (ns, no_ws_effects(), next)
            },
            None => {
                let id = copy_string(&s.order[s.pos]);
                s.phase = WsPhase::AwaitPrepare;
                s.attempts = s.attempts + 1;
                (s, no_ws_effects(), WsRequest::Prepare(id))
            },
        },
        WsEvent::Prepared(r) => match r {
            Err(m) => {
                let mut effects: Vec<PoolEffect> = Vec::new();
                effects.push(PoolEffect::Invalidate(copy_string(&s.order[s.pos])));
                assert(effects_view(effects@) =~= seq![EffectView::Invalidate(sv.order[sv.pos])]);
                let (ns, next) = ws_next_exec(s, 502, m, lit("account_prepare_failed"));
                (ns, effects, next)
            },
            Ok(a) => {
                if s.restrict_free && a.free_plan {
                    let mut effects: Vec<PoolEffect> = Vec::new();
                    effects.push(PoolEffect::MarkFailure {
                        account_id: copy_string(&a.id),
                        status: None,
                        category: Some(lit("free_account_restricted")),
                        message: lit("Free 账号不支持加入本地接入"),
                    });
                    assert(effects_view(effects@) =~= seq![
                        EffectView::MarkFailure(a.id@, None, Some("free_account_restricted"@), "Free 账号不支持加入本地接入"@),
                    ]);
                    s.last_error = lit("Free 账号不支持加入本地接入");
                    s.last_category = Some(lit("free_account_restricted"));
                    let len_now: usize = s.order.len();
                    assert(s.pos < len_now);
                    s.pos = s.pos + 1;
                    let (ns, next) = ws_advance_exec(s);
                    (ns, effects, next)
                } else {
                    s.phase = WsPhase::AwaitConnect;
                    s.last_account = Some((copy_string(&a.id), copy_string(&a.email)));
                    s.current = Some(a);
                    (s, no_ws_effects(), WsRequest::Connect)
                }
            },
        },
        WsEvent::Connected(r) => {
            let a = match &s.current {
                Some(a) => copy_ws_account(a),
                None => {
                    assert(false);
                    return (s, no_ws_effects(), WsRequest::Connect);
                },
            };
            match r {
                Ok(_) => {
                    s.phase = WsPhase::Done;
                    let next = WsRequest::Succeed { account_id: copy_string(&a.id), account_email: copy_string(&a.email) };
                    (s, no_ws_effects(), next)
                },
                Err(f) => {
                    let retried = s.phase == WsPhase::AwaitReconnect;
                    ws_failed_exec(s, &a, f, retried)
                },
            }
        },
        WsEvent::Refreshed(r) => {
            let a = match &s.current {
                Some(a) => copy_ws_account(a),
                None => {
                    assert(false);
                    return (s, no_ws_effects(), WsRequest::Connect);
                },
            };
            match r {
                Err(m) => {
                    let mut effects: Vec<PoolEffect> = Vec::new();
                    effects.push(PoolEffect::Invalidate(copy_string(&a.id)));
                    effects.push(PoolEffect::MarkFailure {
                        account_id: copy_string(&a.id),
                        status: Some(401),
                        category: Some(lit("auth_refresh_failed")),
                        message: copy_string(&m),
                    });
                    assert(effects_view(effects@) =~= seq![
                        EffectView::Invalidate(a.id@),
                        EffectView::MarkFailure(a.id@, Some(401), Some("auth_refresh_failed"@), m@),
                    ]);
                    let (ns, next) = ws_next_exec(s, 401, m, lit("auth_refresh_failed"));
                    (ns, effects, next)
                },
                Ok(b) => {
                    s.phase = WsPhase::AwaitReconnect;
                    s.current = Some(b);
                    (s, no_ws_effects(), WsRequest::Connect)
                },
            }
        },
    }
}

} // verus!
