//! Which proxy the gateway's upstream requests go through, and how a failed
//! request explains it to the client.
use vstd::prelude::*;
use crate::collection::CodexLocalAccessCollection;
use crate::errors::{decimal_string, decimal_text, error_code_for, gateway_error_code};
use crate::json::{entries_view, json_view, push_entry, JsonValue, JsonView};
use crate::text::{chars_of, concat_str, copy_opt_string, lit, opt_string_text, string_of, trim, trim_vec};

verus! {

broadcast use vstd::string::group_string_axioms;

/// Where the upstream proxy comes from.
#[derive(Debug, Clone, Copy, PartialEq, Eq, Structural)]
pub enum UpstreamProxySource {
    ApiService,
    Global,
    SystemEnv,
    SystemAuto,
}

/// The proxy the upstream client is built with, and where it comes from.
#[derive(Debug)]
pub struct UpstreamHttpClientSignature {
    pub proxy_source: UpstreamProxySource,
    pub proxy_url: Option<String>,
}

/// The proxy as reported to a client (its URL with credentials redacted).
#[derive(Debug)]
pub struct UpstreamProxyDiagnostics {
    pub proxy_source: UpstreamProxySource,
    pub proxy_url: Option<String>,
}

/// Optional text, trimmed, unless missing or blank.
pub open spec fn nonblank_text(o: Option<Seq<char>>) -> Option<Seq<char>> {
    match o {
        Some(t) => if trim(t).len() > 0 {
            Some(trim(t))
        } else {
            None
        },
        None => None,
    }
}

fn nonblank_exec(o: Option<&str>) -> (r: Option<String>)
    ensures
        opt_string_text(r) == nonblank_text(
            match o {
                Some(t) => Some(t@),
                None => None,
            },
        ),
{
    match o {
        Some(t) => {
            let v = trim_vec(&chars_of(t));
            if v.len() > 0 {
                Some(string_of(&v))
            } else {
                None
            }
        },
        None => None,
    }
}

/// The environment variables read for a proxy, in order.
pub fn env_proxy_keys() -> (r: Vec<&'static str>)
    ensures
        r@.len() == 6,
        r@[0]@ == "HTTPS_PROXY"@,
        r@[1]@ == "https_proxy"@,
        r@[2]@ == "ALL_PROXY"@,
        r@[3]@ == "all_proxy"@,
        r@[4]@ == "HTTP_PROXY"@,
        r@[5]@ == "http_proxy"@,
{
    let mut r: Vec<&'static str> = Vec::new();
    r.push("HTTPS_PROXY");
    r.push("https_proxy");
    r.push("ALL_PROXY");
    r.push("all_proxy");
    r.push("HTTP_PROXY");
    r.push("http_proxy");
    r
}

/// The first of the values that is not blank, trimmed.
pub open spec fn first_nonblank(values: Seq<Option<Seq<char>>>) -> Option<Seq<char>>
    decreases values.len(),
{
    if values.len() == 0 {
        None
    } else {
        match nonblank_text(values[0]) {
            Some(v) => Some(v),
            None => first_nonblank(values.drop_first()),
        }
    }
}

pub open spec fn opt_texts(v: Seq<Option<String>>) -> Seq<Option<Seq<char>>> {
    v.map_values(|o: Option<String>| opt_string_text(o))
}

/// The proxy the environment names: the values of the proxy variables (in
/// the order `env_proxy_keys` gives, a missing one as none), and the first
/// that is not blank, trimmed.
pub fn upstream_env_proxy_url(env_values: &Vec<Option<String>>) -> (r: Option<String>)
    ensures
        opt_string_text(r) == first_nonblank(opt_texts(env_values@)),
{
    let ghost vals = opt_texts(env_values@);
    let mut i: usize = 0;
    proof {
        assert(vals.skip(0) =~= vals);
    }
    while i < env_values.len()
        invariant
            i <= env_values@.len(),
            vals == opt_texts(env_values@),
            first_nonblank(vals) == first_nonblank(vals.skip(i as int)),
        decreases env_values@.len() - i,
    {
        proof {
            assert(vals.skip(i as int)[0] == opt_string_text(env_values@[i as int]));
            assert(vals.skip(i as int).drop_first() =~= vals.skip(i as int + 1));
        }
        let v = match &env_values[i] {
            Some(t) => nonblank_exec(Some(t.as_str())),
            None => None,
        };
        if v.is_some() {
            return v;
        }
        i = i + 1;
    }
    None
}

/// The proxy the upstream client uses: the API service's proxy when set;
/// else the global proxy when it is enabled and set; else the environment's;
/// else the system's automatic configuration (no URL).
pub open spec fn signature_of(
    api_proxy: Option<Seq<char>>,
    global_enabled: bool,
    global_url: Seq<char>,
    env_proxy: Option<Seq<char>>,
) -> (UpstreamProxySource, Option<Seq<char>>) {
    match nonblank_text(api_proxy) {
        Some(a) => (UpstreamProxySource::ApiService, Some(a)),
        None => if global_enabled && trim(global_url).len() > 0 {
            (UpstreamProxySource::Global, Some(trim(global_url)))
        } else {
            match env_proxy {
                Some(e) => (UpstreamProxySource::SystemEnv, Some(e)),
                None => (UpstreamProxySource::SystemAuto, None),
            }
        },
    }
}

/// The proxy the upstream client uses, from the API service's setting, the
/// global proxy setting, and the environment's proxy.
pub fn current_upstream_http_client_signature(
    upstream_proxy_url: Option<&str>,
    global_proxy_enabled: bool,
    global_proxy_url: &str,
    env_proxy_url: Option<String>,
) -> (r: UpstreamHttpClientSignature)
    ensures
        (r.proxy_source, opt_string_text(r.proxy_url)) == signature_of(
            match upstream_proxy_url {
                Some(t) => Some(t@),
                None => None,
            },
            global_proxy_enabled,
            global_proxy_url@,
            opt_string_text(env_proxy_url),
        ),
{
    match nonblank_exec(upstream_proxy_url) {
        Some(a) => {
            return UpstreamHttpClientSignature { proxy_source: UpstreamProxySource::ApiService, proxy_url: Some(a) };
        },
        None => {},
    }
    if global_proxy_enabled {
        let g = trim_vec(&chars_of(global_proxy_url));
        if g.len() > 0 {
            return UpstreamHttpClientSignature {
                proxy_source: UpstreamProxySource::Global,
                proxy_url: Some(string_of(&g)),
            };
        }
    }
    match env_proxy_url {
        Some(e) => UpstreamHttpClientSignature { proxy_source: UpstreamProxySource::SystemEnv, proxy_url: Some(e) },
        None => UpstreamHttpClientSignature { proxy_source: UpstreamProxySource::SystemAuto, proxy_url: None },
    }
}

// ---------------------------------------------------------------------------
// Checking a proxy URL
// ---------------------------------------------------------------------------

/// The text of the error `reqwest::Proxy::all` gives for a URL, or none when
/// it accepts the URL.
pub uninterp spec fn proxy_url_error(url: Seq<char>) -> Option<Seq<char>>;

/// Builds a `reqwest::Proxy::all` for a URL and drops it, keeping the text
/// of its error. What comes back depends on the URL alone.
#[verifier::external_body]
fn check_proxy_url(url: &str) -> (r: Option<String>)
    ensures
        opt_string_text(r) == proxy_url_error(url@),
{
    match reqwest::Proxy::all(url) {
        Ok(_) => None,
        Err(error) => Some(error.to_string()),
    }
}

/// A proxy URL setting, trimmed, unless missing or blank.
pub fn normalize_upstream_proxy_url(upstream_proxy_url: Option<String>) -> (r: Option<String>)
    ensures
        opt_string_text(r) == nonblank_text(opt_string_text(upstream_proxy_url)),
{
    match upstream_proxy_url {
        Some(t) => nonblank_exec(Some(t.as_str())),
        None => None,
    }
}

/// A proxy URL setting checked: trimmed (none when blank), refused with the
/// proxy's error when `reqwest` refuses it.
pub open spec fn checked_proxy_setting(setting: Option<Seq<char>>) -> Result<Option<Seq<char>>, Seq<char>> {
    match nonblank_text(setting) {
        Some(u) => match proxy_url_error(u) {
            Some(e) => Err("API 代理地址无效: "@ + e),
            None => Ok(Some(u)),
        },
        None => Ok(None),
    }
}

/// A proxy URL setting checked.
pub fn validate_upstream_proxy_config(upstream_proxy_url: Option<String>) -> (r: Result<Option<String>, String>)
    ensures
        match checked_proxy_setting(opt_string_text(upstream_proxy_url)) {
            Ok(v) => r matches Ok(x) && opt_string_text(x) == v,
            Err(e) => r matches Err(x) && x@ == e,
        },
{
    let normalized = normalize_upstream_proxy_url(upstream_proxy_url);
    match &normalized {
        Some(u) => match check_proxy_url(u.as_str()) {
            Some(e) => return Err(concat_str("API 代理地址无效: ", e.as_str())),
            None => {},
        },
        None => {},
    }
    Ok(normalized)
}

/// The proxy the sidecar is started with: the collection's proxy when set,
/// else the global proxy when enabled and set, else none; a proxy `reqwest`
/// refuses is an error.
pub open spec fn sidecar_proxy(
    collection_proxy: Option<Seq<char>>,
    global_enabled: bool,
    global_url: Seq<char>,
) -> Result<Option<Seq<char>>, Seq<char>> {
    match nonblank_text(collection_proxy) {
        Some(u) => match proxy_url_error(u) {
            Some(e) => Err("API 代理地址无效: "@ + e),
            None => Ok(Some(u)),
        },
        None => if global_enabled && trim(global_url).len() > 0 {
            match proxy_url_error(trim(global_url)) {
                Some(e) => Err("全局代理地址无效: "@ + e),
                None => Ok(Some(trim(global_url))),
            }
        } else {
            Ok(None)
        },
    }
}

/// The proxy the sidecar is started with.
pub fn sidecar_effective_proxy_url(
    collection: &CodexLocalAccessCollection,
    global_proxy_enabled: bool,
    global_proxy_url: &str,
) -> (r: Result<Option<String>, String>)
    ensures
        match sidecar_proxy(opt_string_text(collection.upstream_proxy_url), global_proxy_enabled, global_proxy_url@) {
            Ok(v) => r matches Ok(x) && opt_string_text(x) == v,
            Err(e) => r matches Err(x) && x@ == e,
        },
{
    let own = match &collection.upstream_proxy_url {
        Some(t) => nonblank_exec(Some(t.as_str())),
        None => None,
    };
    match own {
        Some(u) => {
            return match check_proxy_url(u.as_str()) {
                Some(e) => Err(concat_str("API 代理地址无效: ", e.as_str())),
                None => Ok(Some(u)),
            };
        },
        None => {},
    }
    if global_proxy_enabled {
        let g = trim_vec(&chars_of(global_proxy_url));
        if g.len() > 0 {
            let u = string_of(&g);
            return match check_proxy_url(u.as_str()) {
                Some(e) => Err(concat_str("全局代理地址无效: ", e.as_str())),
                None => Ok(Some(u)),
            };
        }
    }
    Ok(None)
}

// ---------------------------------------------------------------------------
// Explaining a failure
// ---------------------------------------------------------------------------

/// How the proxy source is named in an error body.
pub open spec fn proxy_source_code(source: UpstreamProxySource) -> Seq<char> {
    match source {
        UpstreamProxySource::ApiService => "api_service"@,
        UpstreamProxySource::Global => "global"@,
        UpstreamProxySource::SystemEnv => "system_env"@,
        UpstreamProxySource::SystemAuto => "system_auto"@,
    }
}

/// How the proxy source is named in an error body.
pub fn upstream_proxy_source_code(source: UpstreamProxySource) -> (r: &'static str)
    ensures
        r@ == proxy_source_code(source),
{
    match source {
        UpstreamProxySource::ApiService => "api_service",
        UpstreamProxySource::Global => "global",
        UpstreamProxySource::SystemEnv => "system_env",
        UpstreamProxySource::SystemAuto => "system_auto",
    }
}

/// The sentence that says which proxy the upstream request went through.
pub open spec fn proxy_diagnostics_text(source: UpstreamProxySource, url: Option<Seq<char>>) -> Seq<char> {
    match source {
        UpstreamProxySource::ApiService => match url {
            Some(u) => "当前使用 API 代理地址："@ + u + "。"@,
            None => "当前 API 代理地址为空。"@,
        },
        UpstreamProxySource::Global => match url {
            Some(u) => "当前 API 代理地址为空，已跟随全局代理："@ + u + "。"@,
            None => "当前 API 代理地址为空，已尝试跟随全局代理。"@,
        },
        UpstreamProxySource::SystemEnv => match url {
            Some(u) => "当前 API 代理地址为空，且全局代理未启用或未配置，已使用环境代理："@ + u + "。"@,
            None => "当前 API 代理地址为空，且全局代理未启用或未配置，已尝试使用环境代理。"@,
        },
        UpstreamProxySource::SystemAuto => "当前 API 代理地址为空，且全局代理与环境代理均未配置，已回退到系统自动代理配置；如仍失败，请在 API 代理地址中填写 Clash 的 HTTP/mixed 端口。"@,
    }
}

/// The sentence that says which proxy the upstream request went through.
pub fn gateway_proxy_diagnostics_message(diagnostics: &UpstreamProxyDiagnostics) -> (r: String)
    ensures
        r@ == proxy_diagnostics_text(diagnostics.proxy_source, opt_string_text(diagnostics.proxy_url)),
{
    match diagnostics.proxy_source {
        UpstreamProxySource::ApiService => match &diagnostics.proxy_url {
            Some(u) => concat_str(concat_str("当前使用 API 代理地址：", u.as_str()).as_str(), "。"),
            None => lit("当前 API 代理地址为空。"),
        },
        UpstreamProxySource::Global => match &diagnostics.proxy_url {
            Some(u) => concat_str(concat_str("当前 API 代理地址为空，已跟随全局代理：", u.as_str()).as_str(), "。"),
            None => lit("当前 API 代理地址为空，已尝试跟随全局代理。"),
        },
        UpstreamProxySource::SystemEnv => match &diagnostics.proxy_url {
            Some(u) => concat_str(
                concat_str("当前 API 代理地址为空，且全局代理未启用或未配置，已使用环境代理：", u.as_str()).as_str(),
                "。",
            ),
            None => lit("当前 API 代理地址为空，且全局代理未启用或未配置，已尝试使用环境代理。"),
        },
        UpstreamProxySource::SystemAuto => lit(
            "当前 API 代理地址为空，且全局代理与环境代理均未配置，已回退到系统自动代理配置；如仍失败，请在 API 代理地址中填写 Clash 的 HTTP/mixed 端口。",
        ),
    }
}

/// The message a client sees: the message itself, except for a 502, which
/// explains how the upstream is reached (with the proxy sentence when known)
/// and ends with the original message.
pub open spec fn user_visible_message(
    status: u16,
    message: Seq<char>,
    diagnostics: Option<(UpstreamProxySource, Option<Seq<char>>)>,
) -> Seq<char> {
    if status != 502 {
        message
    } else {
        let context = match diagnostics {
            Some(d) => " "@ + proxy_diagnostics_text(d.0, d.1),
            None => Seq::empty(),
        };
        "Codex API 服务连接上游失败。API 代理地址留空时会依次使用全局代理、环境代理、系统自动代理；如需固定出口，建议填写 API 代理地址（例如 http://127.0.0.1:7890）后重试。"@
            + context + " 如果 Codex 客户端仍显示 502 且 API 服务没有请求记录，请检查代理工具是否拦截或屏蔽 localhost / 127.0.0.1。原始错误："@
            + message
    }
}

pub open spec fn diagnostics_view(d: Option<&UpstreamProxyDiagnostics>) -> Option<(UpstreamProxySource, Option<Seq<char>>)> {
    match d {
        Some(x) => Some((x.proxy_source, opt_string_text(x.proxy_url))),
        None => None,
    }
}

/// The message a client sees.
pub fn gateway_user_visible_error_message(
    status: u16,
    message: &str,
    proxy_diagnostics: Option<&UpstreamProxyDiagnostics>,
) -> (r: String)
    ensures
        r@ == user_visible_message(status, message@, diagnostics_view(proxy_diagnostics)),
{
    if status != 502 {
        return lit(message);
    }
    let context = match proxy_diagnostics {
        Some(d) => concat_str(" ", gateway_proxy_diagnostics_message(d).as_str()),
        None => {
            proof {
                reveal_strlit("");
            }
            lit("")
        },
    };
    let head = concat_str(
        "Codex API 服务连接上游失败。API 代理地址留空时会依次使用全局代理、环境代理、系统自动代理；如需固定出口，建议填写 API 代理地址（例如 http://127.0.0.1:7890）后重试。",
        context.as_str(),
    );
    let mid = concat_str(
        head.as_str(),
        " 如果 Codex 客户端仍显示 502 且 API 服务没有请求记录，请检查代理工具是否拦截或屏蔽 localhost / 127.0.0.1。原始错误：",
    );
    concat_str(mid.as_str(), message)
}

/// The proxy as reported in an error: its source and its URL (`null` when
/// unknown).
pub open spec fn proxy_entries(source: UpstreamProxySource, url: Option<Seq<char>>) -> Seq<(Seq<char>, JsonView)> {
    seq![
        ("source"@, JsonView::Str(proxy_source_code(source))),
        (
            "proxyUrl"@,
            match url {
                Some(u) => JsonView::Str(u),
                None => JsonView::Null,
            },
        ),
    ]
}

/// The members of the gateway's JSON error: the message a client sees, the
/// type, the code of the status, the status, and the proxy (source and URL)
/// when known.
pub open spec fn error_entries(
    status: u16,
    message: Seq<char>,
    diagnostics: Option<(UpstreamProxySource, Option<Seq<char>>)>,
) -> Seq<(Seq<char>, JsonView)> {
    let base = seq![
        ("message"@, JsonView::Str(user_visible_message(status, message, diagnostics))),
        ("type"@, JsonView::Str("codex_local_access_error"@)),
        ("code"@, JsonView::Str(error_code_for(status))),
        ("status"@, JsonView::Number(crate::json::NumberView::PosInt(status as u64))),
    ];
    match diagnostics {
        Some(d) => base.push(
            (
                "upstreamProxy"@,
                JsonView::Object(proxy_entries(d.0, d.1)),
            ),
        ),
        None => base,
    }
}

proof fn lemma_error_entries(status: u16, message: Seq<char>, dv: Option<(UpstreamProxySource, Option<Seq<char>>)>)
    ensures
        ({
            let base = seq![
                ("message"@, JsonView::Str(user_visible_message(status, message, dv))),
                ("type"@, JsonView::Str("codex_local_access_error"@)),
                ("code"@, JsonView::Str(error_code_for(status))),
                ("status"@, JsonView::Number(crate::json::NumberView::PosInt(status as u64))),
            ];
            error_entries(status, message, dv) == match dv {
                Some(d) => base.push(
                    (
                        "upstreamProxy"@,
                        JsonView::Object(proxy_entries(d.0, d.1)),
                    ),
                ),
                None => base,
            }
        }),
{
}

/// The JSON error body of the gateway: the error under `error`.
pub open spec fn error_body_view(
    status: u16,
    message: Seq<char>,
    diagnostics: Option<(UpstreamProxySource, Option<Seq<char>>)>,
) -> JsonView {
    JsonView::Object(seq![("error"@, JsonView::Object(error_entries(status, message, diagnostics)))])
}

/// The JSON error body of the gateway.
pub fn gateway_error_body(
    status: u16,
    message: &str,
    proxy_diagnostics: Option<&UpstreamProxyDiagnostics>,
) -> (r: JsonValue)
    ensures
        json_view(r) == error_body_view(status, message@, diagnostics_view(proxy_diagnostics)),
{
    let mut error: Vec<(String, JsonValue)> = Vec::new();
    push_entry(
        &mut error,
        "message",
        JsonValue::String(gateway_user_visible_error_message(status, message, proxy_diagnostics)),
    );
    push_entry(&mut error, "type", JsonValue::String(lit("codex_local_access_error")));
    push_entry(&mut error, "code", JsonValue::String(lit(gateway_error_code(status))));
    push_entry(&mut error, "status", JsonValue::Number(crate::json::JsonNumber::PosInt(status as u64)));
    let ghost base = entries_view(error@);
    let ghost dv = diagnostics_view(proxy_diagnostics);
    let ghost expected = error_entries(status, message@, dv);
    proof {
        assert(base =~= seq![
            ("message"@, JsonView::Str(user_visible_message(status, message@, dv))),
            ("type"@, JsonView::Str("codex_local_access_error"@)),
            ("code"@, JsonView::Str(error_code_for(status))),
            ("status"@, JsonView::Number(crate::json::NumberView::PosInt(status as u64))),
        ]);
    }
    match proxy_diagnostics {
        Some(d) => {
            let mut proxy: Vec<(String, JsonValue)> = Vec::new();
            push_entry(&mut proxy, "source", JsonValue::String(lit(upstream_proxy_source_code(d.proxy_source))));
            let url = match &d.proxy_url {
                Some(u) => JsonValue::String(crate::text::copy_string(u)),
                None => JsonValue::Null,
            };
            push_entry(&mut proxy, "proxyUrl", url);
            proof {
                assert(entries_view(proxy@) =~= seq![
                    ("source"@, JsonView::Str(proxy_source_code(d.proxy_source))),
                    (
                        "proxyUrl"@,
                        match opt_string_text(d.proxy_url) {
                            Some(u) => JsonView::Str(u),
                            None => JsonView::Null,
                        },
                    ),
                ]);
            }
            let ghost pv = entries_view(proxy@);
            let ghost before_error = entries_view(error@);
            let pobj = JsonValue::Object(proxy);
            proof {
                assert(json_view(pobj) == JsonView::Object(pv));
            }
            push_entry(&mut error, "upstreamProxy", pobj);
            proof {
                assert(entries_view(error@) == before_error.push(("upstreamProxy"@, JsonView::Object(pv))));
                assert(before_error == base);
                assert(dv == Some((d.proxy_source, opt_string_text(d.proxy_url))));
                lemma_error_entries(status, message@, dv);
                assert(pv == proxy_entries(d.proxy_source, opt_string_text(d.proxy_url)));
                assert(entries_view(error@) =~= expected);
            }
        },
        None => {
            proof {
                lemma_error_entries(status, message@, dv);
                assert(entries_view(error@) =~= expected);
            }
        },
    }
    let mut body: Vec<(String, JsonValue)> = Vec::new();
    push_entry(&mut body, "error", JsonValue::Object(error));
    proof {
        assert(entries_view(body@) =~= seq![("error"@, JsonView::Object(expected))]);
    }
    JsonValue::Object(body)
}

} // verus!
