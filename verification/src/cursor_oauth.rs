//! Cursor's deep-control OAuth login: starting a session with a PKCE verifier
//! and challenge, cancelling it, and the decisions of the polling loop that
//! waits for the user to finish in the browser.
//!
//! The pending session lives with the caller; the network requests and the
//! waits between them are the caller's too, which hands each outcome back.
use rand::Rng;
use vstd::prelude::*;
use vstd::utf8::encode_utf8;
use crate::digest::{sha256, base64_url_no_pad, sha256_bytes, base64_url_encode};
use crate::clock::now_seconds;
use crate::text::{lit, concat_str, copy_string, has_char, has_char_exec, chars_of, str_eq, opt_string_text};

verus! {

broadcast use vstd::string::group_string_axioms;

/// What a started login gives to the user interface.
#[derive(Debug, Clone)]
pub struct CursorOAuthStartResponse {
    pub login_id: String,
    pub verification_uri: String,
    pub expires_in: u64,
    pub interval_seconds: u64,
}

/// The login session that is waiting for the user.
#[derive(Debug, Clone)]
pub struct PendingOAuthState {
    pub login_id: String,
    pub uuid: String,
    pub code_verifier: String,
    pub expires_at: i64,
    pub cancelled: bool,
}

/// How long a login session stays open, in seconds.
pub const LOGIN_TTL_SECONDS: i64 = 300;

/// The pause between two polls, in milliseconds.
pub const POLL_INTERVAL_MS: u64 = 2000;

/// How many polls are made before the login times out.
pub const MAX_POLLS: u32 = 150;

/// The PKCE challenge of a verifier: URL-safe base64 (no padding) of the
/// SHA-256 of its UTF-8 bytes.
pub open spec fn code_challenge_of(verifier: Seq<char>) -> Seq<char> {
    base64_url_no_pad(sha256(encode_utf8(verifier)))
}

/// The page the user opens to log in.
pub open spec fn verification_uri_of(challenge: Seq<char>, uuid: Seq<char>) -> Seq<char> {
    "https://cursor.com/loginDeepControl?challenge="@ + challenge + "&uuid="@ + uuid + "&mode=login"@
}

/// When a session started at `now` expires (saturating at the end of time).
pub open spec fn expiry_of(now: i64) -> i64 {
    if now <= i64::MAX - LOGIN_TTL_SECONDS {
        (now + LOGIN_TTL_SECONDS) as i64
    } else {
        i64::MAX
    }
}

/// Thirty-two bytes from `rand::thread_rng`. Only their number is promised.
#[verifier::external_body]
fn random_bytes_32() -> (r: Vec<u8>)
    ensures
        r@.len() == 32,
{
    rand::thread_rng().gen::<[u8; 32]>().to_vec()
}

/// A fresh random UUID from `uuid::Uuid::new_v4`, in its hyphenated lowercase
/// text form: 36 characters, `-` at positions 8, 13, 18 and 23, lowercase
/// hexadecimal digits elsewhere, version digit `4` at position 14 and variant
/// digit `8`, `9`, `a` or `b` at position 19.
#[verifier::external_body]
pub(crate) fn new_uuid_v4() -> (r: String)
    ensures
        is_uuid_v4_text(r@),
{
    uuid::Uuid::new_v4().to_string()
}

/// The text form of a random (version 4) UUID.
pub open spec fn is_uuid_v4_text(s: Seq<char>) -> bool {
    &&& s.len() == 36
    &&& forall|i: int|
        0 <= i < 36 ==> if i == 8 || i == 13 || i == 18 || i == 23 {
            #[trigger] s[i] == '-'
        } else {
            ('0' <= s[i] <= '9') || ('a' <= s[i] <= 'f')
        }
    &&& s[14] == '4'
    &&& (s[19] == '8' || s[19] == '9' || s[19] == 'a' || s[19] == 'b')
}

/// The challenge of a verifier.
pub fn code_challenge(code_verifier: &str) -> (r: String)
    ensures
        r@ == code_challenge_of(code_verifier@),
{
    let digest = sha256_bytes(code_verifier.as_bytes());
    base64_url_encode(digest.as_slice())
}

/// Opens a login session from its verifier, its UUID and the time: the session
/// replaces any pending one, and the response names the page to open.
pub fn begin_login(
    pending: &mut Option<PendingOAuthState>,
    code_verifier: String,
    login_uuid: String,
    now: i64,
) -> (r: CursorOAuthStartResponse)
    ensures
        r.login_id@ == login_uuid@,
        r.verification_uri@ == verification_uri_of(code_challenge_of(code_verifier@), login_uuid@),
        r.expires_in == 300,
        r.interval_seconds == 2,
        *final(pending) matches Some(state) && state.login_id@ == login_uuid@ && state.uuid@
            == login_uuid@ && state.code_verifier@ == code_verifier@ && state.expires_at
            == expiry_of(now) && !state.cancelled,
{
    let challenge = code_challenge(code_verifier.as_str());
    let uri = concat_str(
        concat_str(
            concat_str(
                concat_str(
                    "https://cursor.com/loginDeepControl?challenge=",
                    challenge.as_str(),
                ).as_str(),
                "&uuid=",
            ).as_str(),
            login_uuid.as_str(),
        ).as_str(),
        "&mode=login",
    );
    let expires_at = if now <= i64::MAX - LOGIN_TTL_SECONDS {
        now + LOGIN_TTL_SECONDS
    } else {
        i64::MAX
    };
    let login_id = copy_string(&login_uuid);
    let response_id = copy_string(&login_uuid);
    *pending = Some(
        PendingOAuthState {
            login_id,
            uuid: login_uuid,
            code_verifier,
            expires_at,
            cancelled: false,
        },
    );
    proof {
        assert(uri@ =~= verification_uri_of(code_challenge_of(code_verifier@), response_id@));
    }
    CursorOAuthStartResponse {
        login_id: response_id,
        verification_uri: uri,
        expires_in: 300,
        interval_seconds: 2,
    }
}

/// Starts a login: a verifier from 32 random bytes, a random UUID as login id,
/// and a session that expires 300 seconds from now. It always succeeds.
pub fn start_login(pending: &mut Option<PendingOAuthState>) -> (r: Result<
    CursorOAuthStartResponse,
    String,
>)
    ensures
        r is Ok,
        r matches Ok(resp) ==> {
            &&& resp.expires_in == 300
            &&& resp.interval_seconds == 2
            &&& is_uuid_v4_text(resp.login_id@)
            &&& *final(pending) matches Some(state)
            &&& state.login_id@ == resp.login_id@
            &&& state.uuid@ == resp.login_id@
            &&& !state.cancelled
            &&& exists|b: Seq<u8>| b.len() == 32 && state.code_verifier@ == #[trigger] base64_url_no_pad(b)
            &&& exists|now: i64| state.expires_at == #[trigger] expiry_of(now)
            &&& resp.verification_uri@ == verification_uri_of(
                code_challenge_of(state.code_verifier@),
                resp.login_id@,
            )
        },
{
    let bytes = random_bytes_32();
    let code_verifier = base64_url_encode(bytes.as_slice());
    let login_uuid = new_uuid_v4();
    let now = now_seconds();
    let ghost verifier = code_verifier@;
    let resp = begin_login(pending, code_verifier, login_uuid, now);
    assert(verifier == base64_url_no_pad(bytes@));
    assert(expiry_of(now) == expiry_of(now));
    Ok(resp)
}

/// Cancels the pending login, whichever it is: afterwards none is pending.
pub fn cancel_login(pending: &mut Option<PendingOAuthState>, login_id: Option<&str>) -> (r: Result<
    (),
    String,
>)
    ensures
        r is Ok,
        *final(pending) is None,
{
    *pending = None;
    Ok(())
}

/// Why a poll cannot go on, if it cannot: no session, another session, a
/// cancelled or an expired one. Otherwise the session's UUID and verifier.
pub fn check_pending_login(pending: &Option<PendingOAuthState>, login_id: &str, now: i64) -> (r: Result<
    (String, String),
    String,
>)
    ensures
        pending is None ==> (r matches Err(e) && e@ == "没有进行中的 Cursor 登录会话"@),
        pending matches Some(state) ==> {
            if state.login_id@ != login_id@ {
                r matches Err(e) && e@ == "login_id 不匹配: expected="@ + state.login_id@ + ", got="@
                    + login_id@
            } else if state.cancelled {
                r matches Err(e) && e@ == "登录已取消"@
            } else if now > state.expires_at {
                r matches Err(e) && e@ == "登录会话已过期"@
            } else {
                r matches Ok((uuid, verifier)) && uuid@ == state.uuid@ && verifier@
                    == state.code_verifier@
            }
        },
{
    match pending {
        None => Err(lit("没有进行中的 Cursor 登录会话")),
        Some(state) => {
            if !str_eq(state.login_id.as_str(), login_id) {
                let msg = concat_str(
                    concat_str(
                        concat_str("login_id 不匹配: expected=", state.login_id.as_str()).as_str(),
                        ", got=",
                    ).as_str(),
                    login_id,
                );
                proof {
                    assert(msg@ =~= "login_id 不匹配: expected="@ + state.login_id@ + ", got="@
                        + login_id@);
                }
                return Err(msg);
            }
            if state.cancelled {
                return Err(lit("登录已取消"));
            }
            if now > state.expires_at {
                return Err(lit("登录会话已过期"));
            }
            Ok((copy_string(&state.uuid), copy_string(&state.code_verifier)))
        },
    }
}

/// Whether polling may go on: a cancelled or expired session stops it, a
/// missing one does not.
pub fn poll_gate(pending: &Option<PendingOAuthState>, now: i64) -> (r: Option<String>)
    ensures
        match pending {
            None => r is None,
            Some(state) => if state.cancelled {
                r matches Some(e) && e@ == "登录已取消"@
            } else if now > state.expires_at {
                r matches Some(e) && e@ == "登录会话已过期"@
            } else {
                r is None
            },
        },
{
    match pending {
        None => None,
        Some(state) => {
            if state.cancelled {
                Some(lit("登录已取消"))
            } else if now > state.expires_at {
                Some(lit("登录会话已过期"))
            } else {
                None
            }
        },
    }
}

/// The URL that is polled for the session's tokens.
pub fn poll_url(uuid: &str, code_verifier: &str) -> (r: String)
    ensures
        r@ == "https://api2.cursor.sh/auth/poll?uuid="@ + uuid@ + "&verifier="@ + code_verifier@,
{
    let r = concat_str(
        concat_str(
            concat_str("https://api2.cursor.sh/auth/poll?uuid=", uuid).as_str(),
            "&verifier=",
        ).as_str(),
        code_verifier,
    );
    proof {
        assert(r@ =~= "https://api2.cursor.sh/auth/poll?uuid="@ + uuid@ + "&verifier="@
            + code_verifier@);
    }
    r
}

/// What one poll brought back.
#[derive(Debug, Clone)]
pub enum PollOutcome {
    /// The request could not be made.
    RequestFailed,
    /// A response with a status other than 200.
    Status(u16),
    /// A 200 response whose body could not be read or parsed.
    BodyError(String),
    /// A 200 response with these fields.
    Tokens { access_token: Option<String>, refresh_token: Option<String>, auth_id: Option<String> },
}

/// The tokens of a finished login.
#[derive(Debug, Clone)]
pub struct CursorLoginTokens {
    pub email: String,
    pub auth_id: Option<String>,
    pub access_token: String,
    pub refresh_token: String,
}

/// What the loop does after a poll.
#[derive(Debug, Clone)]
pub enum PollStep {
    /// Wait this many milliseconds and poll again.
    Retry(u64),
    /// The login is done.
    Done(CursorLoginTokens),
    /// The login failed with this message.
    Fail(String),
}

/// The email of a login: the auth id when it holds an `@`, else empty.
pub open spec fn login_email(auth_id: Option<Seq<char>>) -> Seq<char> {
    match auth_id {
        Some(a) => if has_char(a, '@') {
            a
        } else {
            Seq::empty()
        },
        None => Seq::empty(),
    }
}

/// The decision after one poll. A failed request waits twice the interval; a
/// non-200 status, or a 200 without both tokens, waits the interval; a body
/// that cannot be read fails; both tokens finish the login and clear the
/// pending session.
pub fn poll_step(pending: &mut Option<PendingOAuthState>, outcome: PollOutcome) -> (r: PollStep)
    ensures
        match outcome {
            PollOutcome::RequestFailed => r == PollStep::Retry(4000) && *final(pending) == *old(
                pending,
            ),
            PollOutcome::Status(_) => r == PollStep::Retry(2000) && *final(pending) == *old(pending),
            PollOutcome::BodyError(e) => r matches PollStep::Fail(m) && m@ == e@ && *final(pending)
                == *old(pending),
            PollOutcome::Tokens { access_token, refresh_token, auth_id } => match (
                access_token,
                refresh_token,
            ) {
                (Some(a), Some(rt)) => r matches PollStep::Done(t) && t.access_token@ == a@
                    && t.refresh_token@ == rt@ && t.email@ == login_email(
                    match auth_id {
                        Some(x) => Some(x@),
                        None => None,
                    },
                ) && match (t.auth_id, auth_id) {
                    (Some(x), Some(y)) => x@ == y@,
                    (None, None) => true,
                    _ => false,
                } && *final(pending) is None,
                _ => r == PollStep::Retry(2000) && *final(pending) == *old(pending),
            },
        },
{
    match outcome {
        PollOutcome::RequestFailed => PollStep::Retry(POLL_INTERVAL_MS * 2),
        PollOutcome::Status(_) => PollStep::Retry(POLL_INTERVAL_MS),
        PollOutcome::BodyError(e) => PollStep::Fail(e),
        PollOutcome::Tokens { access_token, refresh_token, auth_id } => {
            match (access_token, refresh_token) {
                (Some(a), Some(rt)) => {
                    let email = match &auth_id {
                        Some(x) => {
                            if has_char_exec(&chars_of(x.as_str()), '@') {
                                copy_string(x)
                            } else {
                                String::new()
                            }
                        },
                        None => String::new(),
                    };
                    *pending = None;
                    PollStep::Done(
                        CursorLoginTokens { email, auth_id, access_token: a, refresh_token: rt },
                    )
                },
                _ => PollStep::Retry(POLL_INTERVAL_MS),
            }
        },
    }
}

/// The message of a login whose polls all came back empty; the pending
/// session is cleared.
pub fn poll_timeout(pending: &mut Option<PendingOAuthState>) -> (r: String)
    ensures
        r@ == "Cursor 登录轮询超时，请重试"@,
        *final(pending) is None,
{
    *pending = None;
    lit("Cursor 登录轮询超时，请重试")
}


/// What a finished Cursor login hands to the account import.
pub struct CursorImportPayload {
    pub email: String,
    pub auth_id: Option<String>,
    pub name: Option<String>,
    pub access_token: String,
    pub refresh_token: Option<String>,
    pub membership_type: Option<String>,
    pub subscription_status: Option<String>,
    pub sign_up_type: Option<String>,
    pub cursor_auth_raw: Option<crate::json::JsonValue>,
    pub cursor_usage_raw: Option<crate::json::JsonValue>,
    pub status: Option<String>,
    pub status_reason: Option<String>,
}

/// The raw Cursor authentication of a login: its two tokens, and its auth id
/// where it has one.
pub open spec fn cursor_auth_raw(t: CursorLoginTokens) -> crate::json::JsonView {
    let base = seq![
        ("accessToken"@, crate::json::JsonView::Str(t.access_token@)),
        ("refreshToken"@, crate::json::JsonView::Str(t.refresh_token@)),
    ];
    crate::json::JsonView::Object(
        match t.auth_id {
            Some(a) => base.push(("authId"@, crate::json::JsonView::Str(a@))),
            None => base,
        },
    )
}

/// The import payload of a finished login: its email, auth id and tokens and
/// their raw form; nothing else is known yet.
pub fn build_cursor_import_payload(tokens: CursorLoginTokens) -> (r: CursorImportPayload)
    ensures
        r.email@ == tokens.email@,
        opt_string_text(r.auth_id) == opt_string_text(tokens.auth_id),
        r.name is None,
        r.access_token@ == tokens.access_token@,
        opt_string_text(r.refresh_token) == Some(tokens.refresh_token@),
        r.membership_type is None,
        r.subscription_status is None,
        r.sign_up_type is None,
        r.cursor_auth_raw matches Some(v) && crate::json::json_view(v) == cursor_auth_raw(tokens),
        r.cursor_usage_raw is None,
        r.status is None,
        r.status_reason is None,
{
    let ghost t = tokens;
    let mut raw: Vec<(String, crate::json::JsonValue)> = Vec::new();
    crate::json::push_entry(&mut raw, "accessToken", crate::json::JsonValue::String(copy_string(&tokens.access_token)));
    crate::json::push_entry(&mut raw, "refreshToken", crate::json::JsonValue::String(copy_string(&tokens.refresh_token)));
    match &tokens.auth_id {
        Some(a) => crate::json::push_entry(&mut raw, "authId", crate::json::JsonValue::String(copy_string(a))),
        None => {},
    }
    proof {
        assert(crate::json::entries_view(raw@) =~= cursor_auth_raw(t)->Object_0);
    }
    CursorImportPayload {
        email: tokens.email,
        auth_id: tokens.auth_id,
        name: None,
        access_token: tokens.access_token,
        refresh_token: Some(tokens.refresh_token),
        membership_type: None,
        subscription_status: None,
        sign_up_type: None,
        cursor_auth_raw: Some(crate::json::JsonValue::Object(raw)),
        cursor_usage_raw: None,
        status: None,
        status_reason: None,
    }
}

} // verus!
