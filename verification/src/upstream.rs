//! Which accounts the local gateway may use, and where and with which token
//! it reaches each one's upstream.
use vstd::prelude::*;
use crate::account::{CodexAccount, CodexAuthMode};
use crate::http::{parse_url, url_parts};
use crate::text::{
    trim, lower, contains, chars_of, string_of, trim_vec, lower_vec, contains_exec, lit, opt_string_text, concat_str, str_eq,
};

verus! {

broadcast use vstd::string::group_string_axioms;

/// The upstream of OAuth accounts.
pub open spec fn codex_base_url() -> Seq<char> {
    "https://chatgpt.com/backend-api/codex"@
}

/// The upstream of API-key accounts that name none.
pub open spec fn default_openai_base_url() -> Seq<char> {
    "https://api.openai.com/v1"@
}

/// `s` with every trailing `/` removed.
pub open spec fn trim_end_slash(s: Seq<char>) -> Seq<char>
    decreases s.len(),
{
    if s.len() > 0 && s.last() == '/' {
        trim_end_slash(s.drop_last())
    } else {
        s
    }
}

fn trim_end_slash_exec(v: &Vec<char>) -> (r: Vec<char>)
    ensures
        r@ == trim_end_slash(v@),
{
    let mut end: usize = v.len();
    proof {
        assert(v@.take(end as int) =~= v@);
    }
    while end > 0 && v[end - 1] == '/'
        invariant
            end <= v.len(),
            trim_end_slash(v@) == trim_end_slash(v@.take(end as int)),
        decreases end,
    {
        assert(v@.take(end as int).drop_last() =~= v@.take(end as int - 1));
        end = end - 1;
    }
    let r = crate::text::sub_vec(v, 0, end);
    assert(r@ =~= v@.take(end as int));
    r
}

/// Where an account's requests go: an API-key account's own base URL
/// (trimmed, or the OpenAI default when blank), without trailing `/`; the
/// Codex backend for OAuth accounts.
pub open spec fn upstream_base_url(account: CodexAccount) -> Seq<char> {
    if account.auth_mode == CodexAuthMode::ApiKey {
        let base = match account.api_base_url {
            Some(u) => if trim(u@).len() > 0 {
                trim(u@)
            } else {
                default_openai_base_url()
            },
            None => default_openai_base_url(),
        };
        trim_end_slash(base)
    } else {
        codex_base_url()
    }
}

/// Where an account's requests go.
pub fn account_upstream_base_url(account: &CodexAccount) -> (r: String)
    ensures
        r@ == upstream_base_url(*account),
{
    if account.is_api_key_auth() {
        let base = match &account.api_base_url {
            Some(u) => {
                let t = trim_vec(&chars_of(u.as_str()));
                if t.len() > 0 {
                    t
                } else {
                    chars_of("https://api.openai.com/v1")
                }
            },
            None => chars_of("https://api.openai.com/v1"),
        };
        string_of(&trim_end_slash_exec(&base))
    } else {
        lit("https://chatgpt.com/backend-api/codex")
    }
}

/// The token an account presents upstream: its API key, or its OAuth access
/// token, trimmed; a blank one is an error.
pub open spec fn upstream_token(account: CodexAccount) -> Result<Seq<char>, Seq<char>> {
    let raw = if account.auth_mode == CodexAuthMode::ApiKey {
        match account.openai_api_key {
            Some(k) => k@,
            None => Seq::empty(),
        }
    } else {
        account.tokens.access_token@
    };
    if trim(raw).len() > 0 {
        Ok(trim(raw))
    } else if account.auth_mode == CodexAuthMode::ApiKey {
        Err("API Key 账号缺少上游 API Key"@)
    } else {
        Err("OAuth 账号缺少 access_token"@)
    }
}

/// The token an account presents upstream.
pub fn account_upstream_token(account: &CodexAccount) -> (r: Result<String, String>)
    ensures
        match r {
            Ok(t) => upstream_token(*account) == Ok::<Seq<char>, Seq<char>>(t@),
            Err(e) => upstream_token(*account) == Err::<Seq<char>, Seq<char>>(e@),
        },
{
    let api_key = account.is_api_key_auth();
    let raw = if api_key {
        match &account.openai_api_key {
            Some(k) => chars_of(k.as_str()),
            None => Vec::new(),
        }
    } else {
        chars_of(account.tokens.access_token.as_str())
    };
    proof {
        if api_key && account.openai_api_key is None {
            assert(raw@ =~= Seq::<char>::empty());
        }
    }
    let t = trim_vec(&raw);
    if t.len() > 0 {
        Ok(string_of(&t))
    } else if api_key {
        Err(lit("API Key 账号缺少上游 API Key"))
    } else {
        Err(lit("OAuth 账号缺少 access_token"))
    }
}

/// A plan type names a free plan: not blank, and `free` occurs in it in
/// ASCII lowercase.
pub open spec fn free_plan(plan_type: Option<Seq<char>>) -> bool {
    match plan_type {
        Some(p) => trim(p).len() > 0 && contains(lower(trim(p)), "free"@),
        None => false,
    }
}

/// Whether a plan type names a free plan.
pub fn is_free_plan_type(plan_type: Option<&str>) -> (r: bool)
    ensures
        r == free_plan(
            match plan_type {
                Some(p) => Some(p@),
                None => None,
            },
        ),
{
    match plan_type {
        Some(p) => {
            let t = trim_vec(&chars_of(p));
            let low = lower_vec(&t);
            proof {
                crate::text::lemma_lower_len(t@);
            }
            t.len() > 0 && contains_exec(&low, &chars_of("free"))
        },
        None => false,
    }
}

/// An account may serve the gateway: an API-key account when its key is not
/// blank; an OAuth account unless free accounts are kept out and its plan is
/// free.
pub open spec fn eligible(account: CodexAccount, restrict_free_accounts: bool) -> bool {
    if account.auth_mode == CodexAuthMode::ApiKey {
        match account.openai_api_key {
            Some(k) => trim(k@).len() > 0,
            None => false,
        }
    } else {
        !(restrict_free_accounts && free_plan(opt_string_text(account.plan_type)))
    }
}

/// Whether an account may serve the gateway.
pub fn is_local_access_eligible_account(account: &CodexAccount, restrict_free_accounts: bool) -> (r:
    bool)
    ensures
        r == eligible(*account, restrict_free_accounts),
{
    if account.is_api_key_auth() {
        return match &account.openai_api_key {
            Some(k) => trim_vec(&chars_of(k.as_str())).len() > 0,
            None => false,
        };
    }
    let plan = match &account.plan_type {
        Some(p) => Some(p.as_str()),
        None => None,
    };
    if restrict_free_accounts && is_free_plan_type(plan) {
        return false;
    }
    true
}

/// Whether an account holds a refresh token that is not blank.
pub fn account_has_refresh_token(account: &CodexAccount) -> (r: bool)
    ensures
        r == match account.tokens.refresh_token {
            Some(t) => trim(t@).len() > 0,
            None => false,
        },
{
    match &account.tokens.refresh_token {
        Some(t) => trim_vec(&chars_of(t.as_str())).len() > 0,
        None => false,
    }
}

/// What parsing a text with `url::Url::parse` and then giving it a scheme
/// with `Url::set_scheme` makes of it, as text; `None` where either refuses.
pub uninterp spec fn url_with_scheme(s: Seq<char>, scheme: Seq<char>) -> Option<Seq<char>>;

/// Parses a URL with `url::Url::parse`, changes its scheme with
/// `Url::set_scheme` and writes it out. The result depends on the two texts
/// alone.
#[verifier::external_body]
fn replace_url_scheme(s: &str, scheme: &str) -> (r: Option<String>)
    ensures
        match r {
            Some(x) => url_with_scheme(s@, scheme@) == Some(x@),
            None => url_with_scheme(s@, scheme@) is None,
        },
{
    let mut parsed = url::Url::parse(s).ok()?;
    parsed.set_scheme(scheme).ok()?;
    Some(parsed.to_string())
}

/// The upstream URL of a request: the account's base URL, which must parse,
/// without trailing `/`, followed by the target.
pub open spec fn upstream_url(account: CodexAccount, target: Seq<char>) -> Result<Seq<char>, Seq<char>> {
    let base = upstream_base_url(account);
    match url_parts(base) {
        Err(e) => Err("上游 Base URL 无效: "@ + e),
        Ok(_) => Ok(trim_end_slash(base) + target),
    }
}

/// The upstream URL of a request.
pub fn build_upstream_url(account: &CodexAccount, target: &str) -> (r: Result<String, String>)
    ensures
        match r {
            Ok(u) => upstream_url(*account, target@) == Ok::<Seq<char>, Seq<char>>(u@),
            Err(e) => upstream_url(*account, target@) == Err::<Seq<char>, Seq<char>>(e@),
        },
{
    let base = account_upstream_base_url(account);
    match parse_url(base.as_str()) {
        Err(e) => Err(concat_str("上游 Base URL 无效: ", e.as_str())),
        Ok(_) => {
            let trimmed = string_of(&trim_end_slash_exec(&chars_of(base.as_str())));
            Ok(concat_str(trimmed.as_str(), target))
        },
    }
}

/// The WebSocket scheme for an HTTP scheme.
pub open spec fn websocket_scheme(scheme: Seq<char>) -> Option<Seq<char>> {
    if scheme == "http"@ {
        Some("ws"@)
    } else if scheme == "https"@ {
        Some("wss"@)
    } else {
        None
    }
}

/// The upstream WebSocket URL of a request: its upstream URL with `http`
/// turned into `ws` and `https` into `wss`.
pub open spec fn upstream_websocket_url(account: CodexAccount, target: Seq<char>) -> Result<Seq<char>, Seq<char>> {
    match upstream_url(account, target) {
        Err(e) => Err(e),
        Ok(http_url) => match url_parts(http_url) {
            Err(e) => Err("上游 WebSocket URL 无效: "@ + e),
            Ok((scheme, _, _)) => match websocket_scheme(scheme) {
                None => Err("上游 WebSocket 不支持 "@ + scheme + " 协议"@),
                Some(next) => match url_with_scheme(http_url, next) {
                    Some(u) => Ok(u),
                    None => Err("切换上游 WebSocket 协议失败"@),
                },
            },
        },
    }
}

/// The upstream WebSocket URL of a request.
pub fn build_upstream_websocket_url(account: &CodexAccount, target: &str) -> (r: Result<String, String>)
    ensures
        match r {
            Ok(u) => upstream_websocket_url(*account, target@) == Ok::<Seq<char>, Seq<char>>(u@),
            Err(e) => upstream_websocket_url(*account, target@) == Err::<Seq<char>, Seq<char>>(e@),
        },
{
    let http_url = match build_upstream_url(account, target) {
        Ok(u) => u,
        Err(e) => return Err(e),
    };
    let scheme = match parse_url(http_url.as_str()) {
        Ok((scheme, _, _)) => scheme,
        Err(e) => return Err(concat_str("上游 WebSocket URL 无效: ", e.as_str())),
    };
    let next = if str_eq(scheme.as_str(), "http") {
        "ws"
    } else if str_eq(scheme.as_str(), "https") {
        "wss"
    } else {
        let message = concat_str(concat_str("上游 WebSocket 不支持 ", scheme.as_str()).as_str(), " 协议");
        return Err(message);
    };
    match replace_url_scheme(http_url.as_str(), next) {
        Some(u) => Ok(u),
        None => Err(lit("切换上游 WebSocket 协议失败")),
    }
}

} // verus!
