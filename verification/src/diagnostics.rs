//! The health check of the API service: what its failures say, and how a
//! failed direct request to the local gateway is explained to the user.
use vstd::prelude::*;
use crate::errors::{
    decimal_string, decimal_text, image_capability_message, is_image_generation_capability_message,
    is_quota_or_rate_limit_message, mentions, quota_or_rate_limit_message,
};
use crate::collection::CodexLocalAccessCollection;
use crate::json::{as_text, field, field_of, get_member, get_member_of, json_from_text, parse_json_text, text_of};
use crate::text::{
    chars_of, concat_vec, contains, contains_str, copy_opt_string, lit, lower, lower_vec, string_of,
    trim, trim_vec,
};

verus! {

// ---------------------------------------------------------------------------
// Types
// ---------------------------------------------------------------------------

/// Why a health check failed, and what to do about it.
#[derive(Debug)]
pub struct CodexLocalAccessTestFailure {
    pub title: String,
    pub stage: String,
    pub cause: String,
    pub suggestion: String,
    pub status: Option<u16>,
    pub model_id: Option<String>,
    pub detail: Option<String>,
    pub cli_output: Option<String>,
    pub gateway_output: Option<String>,
}

/// The outcome of a health check: the CLI's reply and its latency, or a failure.
#[derive(Debug)]
pub struct CodexLocalAccessTestResult {
    pub model_id: Option<String>,
    pub latency_ms: Option<u64>,
    pub output: Option<String>,
    pub failure: Option<CodexLocalAccessTestFailure>,
}

/// A failed direct request to the local gateway.
#[derive(Debug)]
pub struct LocalAccessGatewayProbeFailure {
    pub status: Option<u16>,
    pub message: String,
    pub detail: Option<String>,
    pub gateway_output: Option<String>,
}

/// The outcome of a direct request to the local gateway.
#[derive(Debug)]
pub enum LocalAccessGatewayProbeResult {
    Passed,
    Failed(LocalAccessGatewayProbeFailure),
}

/// What a failed Codex CLI conversation reported.
#[derive(Debug)]
pub struct CliConversationFailure {
    pub message: String,
    pub status: Option<String>,
    pub duration_ms: Option<u64>,
    pub stderr: Option<String>,
    pub stdout: Option<String>,
    pub last_message: Option<String>,
}

// ---------------------------------------------------------------------------
// Diagnostic text
// ---------------------------------------------------------------------------

/// Text cut to `max` characters, with `...` appended when it was longer.
pub open spec fn truncated(s: Seq<char>, max: nat) -> Seq<char> {
    if s.len() <= max {
        s
    } else {
        s.take(max as int) + seq!['.', '.', '.']
    }
}

/// Trimmed text cut to 4000 characters; none when it is blank.
pub open spec fn cleaned(s: Seq<char>) -> Option<Seq<char>> {
    let t = trim(s);
    if t.len() == 0 {
        None
    } else {
        Some(truncated(t, 4000))
    }
}

/// Text cut to `max_chars` characters, with `...` appended when it was longer.
pub fn truncate_diagnostic_text(value: &str, max_chars: usize) -> (r: String)
    ensures
        r@ == truncated(value@, max_chars as nat),
{
    let v = chars_of(value);
    if v.len() <= max_chars {
        return lit(value);
    }
    let mut out: Vec<char> = Vec::new();
    let mut i: usize = 0;
    while i < max_chars
        invariant
            i <= max_chars < v.len(),
            out@ == v@.take(i as int),
        decreases max_chars - i,
    {
        out.push(v[i]);
        proof {
            assert(out@ =~= v@.take(i as int + 1));
        }
        i = i + 1;
    }
    out.push('.');
    out.push('.');
    out.push('.');
    proof {
        assert(out@ =~= v@.take(max_chars as int) + seq!['.', '.', '.']);
    }
    string_of(&out)
}

/// Trimmed text cut to 4000 characters; none when it is blank.
pub fn clean_diagnostic_text(value: &str) -> (r: Option<String>)
    ensures
        match r {
            Some(t) => cleaned(value@) == Some(t@),
            None => cleaned(value@) is None,
        },
{
    let tv = trim_vec(&chars_of(value));
    if tv.len() == 0 {
        None
    } else {
        let t = string_of(&tv);
        Some(truncate_diagnostic_text(t.as_str(), 4000))
    }
}

/// What the gateway said in an error body: the `error` text, the
/// `error.message` text or the `message` text of a JSON body, else the
/// trimmed body cut to 800 characters.
pub open spec fn gateway_error_message(body: Seq<char>) -> Seq<char> {
    let t = trim(body);
    if t.len() == 0 {
        "网关未返回错误内容"@
    } else {
        match json_from_text(t) {
            Some(v) => if as_text(field(v, "error"@)) is Some {
                as_text(field(v, "error"@))->0
            } else if as_text(field_of(field(v, "error"@), "message"@)) is Some {
                as_text(field_of(field(v, "error"@), "message"@))->0
            } else if as_text(field(v, "message"@)) is Some {
                as_text(field(v, "message"@))->0
            } else {
                truncated(t, 800)
            },
            None => truncated(t, 800),
        }
    }
}

/// What the gateway said in an error body.
pub fn extract_gateway_error_message(body: &str) -> (r: String)
    ensures
        r@ == gateway_error_message(body@),
{
    let tv = trim_vec(&chars_of(body));
    if tv.len() == 0 {
        return lit("网关未返回错误内容");
    }
    let t = string_of(&tv);
    match parse_json_text(t.as_str()) {
        Some(v) => {
            let error = get_member(&v, "error");
            if let Some(m) = text_of(error) {
                return m;
            }
            if let Some(m) = text_of(get_member_of(error, "message")) {
                return m;
            }
            if let Some(m) = text_of(get_member(&v, "message")) {
                return m;
            }
            truncate_diagnostic_text(t.as_str(), 800)
        },
        None => truncate_diagnostic_text(t.as_str(), 800),
    }
}


// ---------------------------------------------------------------------------
// The CLI's failure report
// ---------------------------------------------------------------------------

/// Parts joined with a separator between neighbours.
pub open spec fn joined(parts: Seq<Seq<char>>, sep: Seq<char>) -> Seq<char>
    decreases parts.len(),
{
    if parts.len() == 0 {
        Seq::empty()
    } else if parts.len() == 1 {
        parts[0]
    } else {
        joined(parts.drop_last(), sep) + sep + parts.last()
    }
}

/// A labelled section, when the value is present.
pub open spec fn section(label: Seq<char>, value: Option<String>) -> Seq<Seq<char>> {
    match value {
        Some(v) => seq![label + v@],
        None => Seq::empty(),
    }
}

/// The sections of a CLI failure report, in order: exit status, duration,
/// stderr, stdout and last message, each when present.
pub open spec fn cli_sections(e: CliConversationFailure) -> Seq<Seq<char>> {
    section("exit_status: "@, e.status) + match e.duration_ms {
        Some(d) => seq!["duration_ms: "@ + decimal_text(d as nat)],
        None => Seq::<Seq<char>>::empty(),
    } + section("stderr:\n"@, e.stderr) + section("stdout:\n"@, e.stdout) + section(
        "last_message:\n"@,
        e.last_message,
    )
}

/// The CLI's failure report: its sections separated by blank lines, trimmed
/// and cut to 4000 characters; none when there is nothing to report.
pub open spec fn cli_failure_output(e: CliConversationFailure) -> Option<Seq<char>> {
    cleaned(joined(cli_sections(e), "\n\n"@))
}

fn push_section(parts: &mut Vec<Vec<char>>, label: &str, value: &Option<String>)
    ensures
        crate::split::pieces(final(parts)@) == crate::split::pieces(old(parts)@) + section(label@, *value),
{
    let ghost before = parts@;
    match value {
        Some(v) => {
            parts.push(concat_vec(&chars_of(label), &chars_of(v.as_str())));
            proof {
                assert(crate::split::pieces(parts@) =~= crate::split::pieces(before) + seq![label@ + v@]);
            }
        },
        None => {
            proof {
                assert(crate::split::pieces(parts@) =~= crate::split::pieces(before) + Seq::empty());
            }
        },
    }
}

fn join_exec(parts: &Vec<Vec<char>>, sep: &Vec<char>) -> (r: Vec<char>)
    ensures
        r@ == joined(crate::split::pieces(parts@), sep@),
{
    let ghost ps = crate::split::pieces(parts@);
    let mut out: Vec<char> = Vec::new();
    let mut i: usize = 0;
    proof {
        assert(ps.take(0) =~= Seq::<Seq<char>>::empty());
    }
    while i < parts.len()
        invariant
            i <= parts.len(),
            ps == crate::split::pieces(parts@),
            out@ == joined(ps.take(i as int), sep@),
        decreases parts.len() - i,
    {
        let ghost t = ps.take(i as int + 1);
        proof {
            assert(t.drop_last() =~= ps.take(i as int));
            assert(t.last() == parts@[i as int]@);
        }
        if i == 0 {
            out = concat_vec(&out, &parts[i]);
            proof {
                assert(out@ =~= parts@[0]@);
            }
        } else {
            out = concat_vec(&concat_vec(&out, sep), &parts[i]);
        }
        i = i + 1;
    }
    proof {
        assert(ps.take(parts.len() as int) =~= ps);
    }
    out
}

/// The CLI's failure report.
pub fn format_cli_failure_output(error: &CliConversationFailure) -> (r: Option<String>)
    ensures
        crate::text::opt_string_text(r) == cli_failure_output(*error),
{
    let mut parts: Vec<Vec<char>> = Vec::new();
    push_section(&mut parts, "exit_status: ", &error.status);
    let ghost after_status = crate::split::pieces(parts@);
    match error.duration_ms {
        Some(d) => {
            let ghost before = parts@;
            parts.push(concat_vec(&chars_of("duration_ms: "), &chars_of(decimal_string(d).as_str())));
            proof {
                assert(crate::split::pieces(parts@) =~= crate::split::pieces(before).push(
                    "duration_ms: "@ + decimal_text(d as nat),
                ));
            }
        },
        None => {},
    }
    push_section(&mut parts, "stderr:\n", &error.stderr);
    push_section(&mut parts, "stdout:\n", &error.stdout);
    push_section(&mut parts, "last_message:\n", &error.last_message);
    proof {
        assert(crate::split::pieces(parts@) =~= cli_sections(*error));
    }
    let text = string_of(&join_exec(&parts, &chars_of("\n\n")));
    clean_diagnostic_text(text.as_str())
}

// ---------------------------------------------------------------------------
// Probing the gateway directly
// ---------------------------------------------------------------------------

/// The report of a direct request to the gateway that answered with status
/// `status`: `HTTP <status>`, a line feed, and the body.
pub open spec fn probe_report(status: u16, body: Seq<char>) -> Seq<char> {
    "HTTP "@ + decimal_text(status as nat) + "\n"@ + body
}

/// What a direct request to the gateway found, from its status and body: it
/// passed on a success status; otherwise the failure carries the status, the
/// gateway's error message, and the cleaned body and report.
pub fn gateway_probe_outcome(status: u16, body: &str) -> (r: LocalAccessGatewayProbeResult)
    ensures
        200 <= status <= 299 ==> r is Passed,
        !(200 <= status <= 299) ==> (r matches LocalAccessGatewayProbeResult::Failed(f) && f.status
            == Some(status) && f.message@ == gateway_error_message(body@) && crate::text::opt_string_text(
            f.detail,
        ) == cleaned(body@) && crate::text::opt_string_text(f.gateway_output) == cleaned(
            probe_report(status, body@),
        )),
{
    if 200 <= status && status <= 299 {
        return LocalAccessGatewayProbeResult::Passed;
    }
    let report = concat_vec(
        &concat_vec(&concat_vec(&chars_of("HTTP "), &chars_of(decimal_string(status as u64).as_str())), &chars_of("\n")),
        &chars_of(body),
    );
    let report_text = string_of(&report);
    LocalAccessGatewayProbeResult::Failed(
        LocalAccessGatewayProbeFailure {
            status: Some(status),
            message: extract_gateway_error_message(body),
            detail: clean_diagnostic_text(body),
            gateway_output: clean_diagnostic_text(report_text.as_str()),
        },
    )
}

/// What a failed direct request to the gateway points at.
#[derive(Debug)]
pub enum ProbeFailureKind {
    GatewayUnreachable,
    GatewayKeyRejected,
    AccountAuthFailed,
    ImageGenerationUnavailable,
    QuotaOrRateLimited,
    NoAccountAvailable,
    UpstreamUnavailable,
    GatewayRequestFailed,
}

/// What a failed direct request points at, from its status and its trimmed
/// message: no status means the gateway could not be reached; 401 is the
/// service key when the message speaks of authorization, a key or `api-key`,
/// else the account; then image capability, then quota or rate limits; 502,
/// 503 and 504 mean an empty account pool when the message says so, else an
/// unavailable upstream; anything else is a failed gateway request.
pub open spec fn probe_failure_kind(status: Option<u16>, message: Seq<char>) -> ProbeFailureKind {
    if status is None {
        ProbeFailureKind::GatewayUnreachable
    } else if status == Some(401u16) {
        if mentions(message, "authorization"@) || contains(message, "密钥"@) || mentions(
            message,
            "api-key"@,
        ) {
            ProbeFailureKind::GatewayKeyRejected
        } else {
            ProbeFailureKind::AccountAuthFailed
        }
    } else if image_capability_message(status, message) {
        ProbeFailureKind::ImageGenerationUnavailable
    } else if quota_or_rate_limit_message(status, message) {
        ProbeFailureKind::QuotaOrRateLimited
    } else if status == Some(502u16) || status == Some(503u16) || status == Some(504u16) {
        if contains(message, "暂无可用账号"@) || contains(message, "集合暂无"@) || contains(
            message,
            "Free 账号"@,
        ) || contains(message, "API Key 账号"@) {
            ProbeFailureKind::NoAccountAvailable
        } else {
            ProbeFailureKind::UpstreamUnavailable
        }
    } else {
        ProbeFailureKind::GatewayRequestFailed
    }
}

/// The title, stage and suggestion shown for each kind of probe failure.
pub open spec fn probe_failure_texts(kind: ProbeFailureKind) -> (Seq<char>, Seq<char>, Seq<char>) {
    match kind {
        ProbeFailureKind::GatewayUnreachable => (
            "无法连接本地网关"@,
            "本地网关连接"@,
            "确认 API 服务仍在运行，端口未被系统占用或安全软件拦截；如端口异常，可先清理端口或更换端口后重试。"@,
        ),
        ProbeFailureKind::GatewayKeyRejected => (
            "本地 API 服务密钥无效"@,
            "本地网关鉴权"@,
            "重置 API 服务密钥后重新复制 Base URL/API Key，并确认 Codex CLI 使用的是最新配置。"@,
        ),
        ProbeFailureKind::AccountAuthFailed => (
            "Codex 账号鉴权失败"@,
            "上游账号鉴权"@,
            "刷新该 Codex 账号额度或重新导入账号；如果账号已退出登录或令牌过期，需要重新登录后再测试。"@,
        ),
        ProbeFailureKind::ImageGenerationUnavailable => (
            "图片生成能力不可用"@,
            "上游图片能力"@,
            "如果只是普通文本对话报错，请在 API 服务里将 image_generation 改为“仅图片接口启用”或“禁用”；如果需要生图，请换用具备图片能力的 Codex 账号。"@,
        ),
        ProbeFailureKind::QuotaOrRateLimited => (
            "上游限流或额度不足"@,
            "上游额度"@,
            "查看账号额度池，切换到仍有额度的账号，或等待冷却窗口结束后重试。"@,
        ),
        ProbeFailureKind::NoAccountAvailable => (
            "账号池暂无可用账号"@,
            "账号池路由"@,
            "在 API 服务账号集合中加入可用的 Codex OAuth 或 API Key 账号，并确认未被 Free 账号限制拦截。"@,
        ),
        ProbeFailureKind::UpstreamUnavailable => (
            "上游服务或代理不可用"@,
            "上游请求"@,
            "检查 API 服务代理地址、网络连通性和 Codex 上游服务状态；如果 API 服务没有请求记录，检查代理工具是否拦截 localhost / 127.0.0.1。"@,
        ),
        ProbeFailureKind::GatewayRequestFailed => (
            "本地网关请求失败"@,
            "本地网关响应"@,
            "根据 HTTP 状态和网关返回内容处理；如果是账号相关错误，优先刷新或重新导入对应账号。"@,
        ),
    }
}

fn probe_failure_texts_exec(kind: &ProbeFailureKind) -> (r: (&'static str, &'static str, &'static str))
    ensures
        (r.0@, r.1@, r.2@) == probe_failure_texts(*kind),
{
    match kind {
        ProbeFailureKind::GatewayUnreachable => (
            "无法连接本地网关",
            "本地网关连接",
            "确认 API 服务仍在运行，端口未被系统占用或安全软件拦截；如端口异常，可先清理端口或更换端口后重试。",
        ),
        ProbeFailureKind::GatewayKeyRejected => (
            "本地 API 服务密钥无效",
            "本地网关鉴权",
            "重置 API 服务密钥后重新复制 Base URL/API Key，并确认 Codex CLI 使用的是最新配置。",
        ),
        ProbeFailureKind::AccountAuthFailed => (
            "Codex 账号鉴权失败",
            "上游账号鉴权",
            "刷新该 Codex 账号额度或重新导入账号；如果账号已退出登录或令牌过期，需要重新登录后再测试。",
        ),
        ProbeFailureKind::ImageGenerationUnavailable => (
            "图片生成能力不可用",
            "上游图片能力",
            "如果只是普通文本对话报错，请在 API 服务里将 image_generation 改为“仅图片接口启用”或“禁用”；如果需要生图，请换用具备图片能力的 Codex 账号。",
        ),
        ProbeFailureKind::QuotaOrRateLimited => (
            "上游限流或额度不足",
            "上游额度",
            "查看账号额度池，切换到仍有额度的账号，或等待冷却窗口结束后重试。",
        ),
        ProbeFailureKind::NoAccountAvailable => (
            "账号池暂无可用账号",
            "账号池路由",
            "在 API 服务账号集合中加入可用的 Codex OAuth 或 API Key 账号，并确认未被 Free 账号限制拦截。",
        ),
        ProbeFailureKind::UpstreamUnavailable => (
            "上游服务或代理不可用",
            "上游请求",
            "检查 API 服务代理地址、网络连通性和 Codex 上游服务状态；如果 API 服务没有请求记录，检查代理工具是否拦截 localhost / 127.0.0.1。",
        ),
        ProbeFailureKind::GatewayRequestFailed => (
            "本地网关请求失败",
            "本地网关响应",
            "根据 HTTP 状态和网关返回内容处理；如果是账号相关错误，优先刷新或重新导入对应账号。",
        ),
    }
}

fn probe_failure_kind_exec(status: Option<u16>, message: &Vec<char>) -> (r: ProbeFailureKind)
    ensures
        r == probe_failure_kind(status, message@),
{
    let low = lower_vec(message);
    let text = string_of(message);
    match status {
        None => return ProbeFailureKind::GatewayUnreachable,
        Some(s) => if s == 401 {
            if contains_str(&low, "authorization") || contains_str(message, "密钥") || contains_str(
                &low,
                "api-key",
            ) {
                return ProbeFailureKind::GatewayKeyRejected;
            } else {
                return ProbeFailureKind::AccountAuthFailed;
            }
        },
    }
    if is_image_generation_capability_message(status, text.as_str()) {
        ProbeFailureKind::ImageGenerationUnavailable
    } else if is_quota_or_rate_limit_message(status, text.as_str()) {
        ProbeFailureKind::QuotaOrRateLimited
    } else if status == Some(502u16) || status == Some(503u16) || status == Some(504u16) {
        if contains_str(message, "暂无可用账号") || contains_str(message, "集合暂无") || contains_str(
            message,
            "Free 账号",
        ) || contains_str(message, "API Key 账号") {
            ProbeFailureKind::NoAccountAvailable
        } else {
            ProbeFailureKind::UpstreamUnavailable
        }
    } else {
        ProbeFailureKind::GatewayRequestFailed
    }
}

/// The cause shown for a failed probe: the trimmed message, after
/// `本地网关返回 HTTP <status>：` when there is a status.
pub open spec fn probe_cause(status: Option<u16>, message: Seq<char>) -> Seq<char> {
    match status {
        Some(s) => "本地网关返回 HTTP "@ + decimal_text(s as nat) + "："@ + message,
        None => message,
    }
}

/// Explains a health check whose CLI conversation failed while a direct
/// request to the gateway failed too: the texts follow what the direct
/// request points at; the failure keeps the probe's status, detail and
/// gateway output, and carries the CLI's report.
pub fn classify_gateway_probe_failure(
    model_id: &str,
    cli_error: &CliConversationFailure,
    probe_failure: LocalAccessGatewayProbeFailure,
) -> (r: CodexLocalAccessTestFailure)
    ensures
        (r.title@, r.stage@, r.suggestion@) == probe_failure_texts(
            probe_failure_kind(probe_failure.status, trim(probe_failure.message@)),
        ),
        r.cause@ == probe_cause(probe_failure.status, trim(probe_failure.message@)),
        r.status == probe_failure.status,
        crate::text::opt_string_text(r.model_id) == Some(model_id@),
        r.detail == probe_failure.detail,
        crate::text::opt_string_text(r.cli_output) == cli_failure_output(*cli_error),
        r.gateway_output == probe_failure.gateway_output,
{
    let status = probe_failure.status;
    let message = trim_vec(&chars_of(probe_failure.message.as_str()));
    let kind = probe_failure_kind_exec(status, &message);
    let (title, stage, suggestion) = probe_failure_texts_exec(&kind);
    let cause = match status {
        Some(s) => string_of(
            &concat_vec(
                &concat_vec(
                    &concat_vec(&chars_of("本地网关返回 HTTP "), &chars_of(decimal_string(s as u64).as_str())),
                    &chars_of("："),
                ),
                &message,
            ),
        ),
        None => string_of(&message),
    };
    CodexLocalAccessTestFailure {
        title: lit(title),
        stage: lit(stage),
        cause,
        suggestion: lit(suggestion),
        status,
        model_id: Some(lit(model_id)),
        detail: probe_failure.detail,
        cli_output: format_cli_failure_output(cli_error),
        gateway_output: probe_failure.gateway_output,
    }
}

/// Explains a health check whose CLI conversation failed: when a direct
/// request to the gateway passed, the cause says so before the CLI's message.
pub fn build_cli_environment_failure(
    model_id: &str,
    cli_error: CliConversationFailure,
    gateway_passed: bool,
) -> (r: CodexLocalAccessTestFailure)
    ensures
        r.title@ == "Codex CLI 执行环境异常"@,
        r.stage@ == "Codex CLI"@,
        r.cause@ == (if gateway_passed {
            "本地网关直接诊断已通过，但 Codex CLI 真实请求失败："@ + cli_error.message@
        } else {
            cli_error.message@
        }),
        r.suggestion@ == "检查 Codex CLI 路径、版本、配置文件读取权限和运行时环境；如果刚升级过 CLI，请重启应用后再测。"@,
        r.status is None,
        crate::text::opt_string_text(r.model_id) == Some(model_id@),
        r.detail is None,
        crate::text::opt_string_text(r.cli_output) == cli_failure_output(cli_error),
        r.gateway_output is None,
{
    let cause = if gateway_passed {
        crate::text::concat_str("本地网关直接诊断已通过，但 Codex CLI 真实请求失败：", cli_error.message.as_str())
    } else {
        crate::text::copy_string(&cli_error.message)
    };
    CodexLocalAccessTestFailure {
        title: lit("Codex CLI 执行环境异常"),
        stage: lit("Codex CLI"),
        cause,
        suggestion: lit("检查 Codex CLI 路径、版本、配置文件读取权限和运行时环境；如果刚升级过 CLI，请重启应用后再测。"),
        status: None,
        model_id: Some(lit(model_id)),
        detail: None,
        cli_output: format_cli_failure_output(&cli_error),
        gateway_output: None,
    }
}

/// A failure with its four texts and the model it concerns, and nothing else.
pub fn local_access_test_failure(
    title: &str,
    stage: &str,
    cause: &str,
    suggestion: &str,
    model_id: Option<String>,
) -> (r: CodexLocalAccessTestFailure)
    ensures
        r.title@ == title@,
        r.stage@ == stage@,
        r.cause@ == cause@,
        r.suggestion@ == suggestion@,
        r.status is None,
        r.model_id == model_id,
        r.detail is None,
        r.cli_output is None,
        r.gateway_output is None,
{
    CodexLocalAccessTestFailure {
        title: lit(title),
        stage: lit(stage),
        cause: lit(cause),
        suggestion: lit(suggestion),
        status: None,
        model_id,
        detail: None,
        cli_output: None,
        gateway_output: None,
    }
}

/// The result of a failed health check: the failure, under its model.
pub fn build_failure_result(failure: CodexLocalAccessTestFailure) -> (r: CodexLocalAccessTestResult)
    ensures
        crate::text::opt_string_text(r.model_id) == crate::text::opt_string_text(failure.model_id),
        r.latency_ms is None,
        r.output is None,
        r.failure == Some(failure),
{
    CodexLocalAccessTestResult {
        model_id: copy_opt_string(&failure.model_id),
        latency_ms: None,
        output: None,
        failure: Some(failure),
    }
}


// ---------------------------------------------------------------------------
// Before the health check runs
// ---------------------------------------------------------------------------

/// Why a health check cannot start.
#[derive(Debug)]
pub enum TestPrecheckFailure {
    NoCollection,
    Disabled,
    NotRunning,
    NoAccounts,
    NoModel,
}

/// Why a health check cannot start, checked in this order: no collection,
/// the service is disabled, the gateway is not running, the collection has no
/// accounts, there is no model or the first model id is blank.
pub open spec fn test_precheck(
    collection: Option<CodexLocalAccessCollection>,
    running: bool,
    model_ids: Seq<String>,
) -> Option<TestPrecheckFailure> {
    match collection {
        None => Some(TestPrecheckFailure::NoCollection),
        Some(c) => if !c.enabled {
            Some(TestPrecheckFailure::Disabled)
        } else if !running {
            Some(TestPrecheckFailure::NotRunning)
        } else if c.account_ids@.len() == 0 {
            Some(TestPrecheckFailure::NoAccounts)
        } else if model_ids.len() == 0 || trim(model_ids[0]@).len() == 0 {
            Some(TestPrecheckFailure::NoModel)
        } else {
            None
        },
    }
}

/// The title, stage, cause and suggestion shown when a health check cannot start.
pub open spec fn precheck_texts(f: TestPrecheckFailure) -> (Seq<char>, Seq<char>, Seq<char>, Seq<char>) {
    match f {
        TestPrecheckFailure::NoCollection => (
            "API 服务集合尚未创建"@,
            "检测前置条件"@,
            "当前没有可用于本地 API 服务的账号集合配置。"@,
            "先在 API 服务弹框中选择账号并保存，然后启用服务后再测试。"@,
        ),
        TestPrecheckFailure::Disabled => (
            "API 服务未启用"@,
            "检测前置条件"@,
            "当前 API 服务处于停用状态，CLI 无法通过本地网关发起请求。"@,
            "先启用 API 服务，再重新执行健康检测。"@,
        ),
        TestPrecheckFailure::NotRunning => (
            "API 服务未运行"@,
            "本地网关进程"@,
            "API 服务配置已启用，但本地网关当前没有监听端口。"@,
            "先启动 API 服务；如果端口被占用，清理端口或更换端口后重试。"@,
        ),
        TestPrecheckFailure::NoAccounts => (
            "账号集合为空"@,
            "账号池配置"@,
            "API 服务集合中没有账号，网关没有可路由的上游账号。"@,
            "在 API 服务账号集合中加入可用的 Codex OAuth 或 API Key 账号后再测试。"@,
        ),
        TestPrecheckFailure::NoModel => (
            "API 服务暂无可用模型"@,
            "模型配置"@,
            "当前 API 服务没有可用于检测的模型 ID。"@,
            "确认账号集合中至少有一个可用账号，并刷新模型/账号状态后再测试。"@,
        ),
    }
}

fn precheck_texts_exec(f: &TestPrecheckFailure) -> (r: (&'static str, &'static str, &'static str, &'static str))
    ensures
        (r.0@, r.1@, r.2@, r.3@) == precheck_texts(*f),
{
    match f {
        TestPrecheckFailure::NoCollection => (
            "API 服务集合尚未创建",
            "检测前置条件",
            "当前没有可用于本地 API 服务的账号集合配置。",
            "先在 API 服务弹框中选择账号并保存，然后启用服务后再测试。",
        ),
        TestPrecheckFailure::Disabled => (
            "API 服务未启用",
            "检测前置条件",
            "当前 API 服务处于停用状态，CLI 无法通过本地网关发起请求。",
            "先启用 API 服务，再重新执行健康检测。",
        ),
        TestPrecheckFailure::NotRunning => (
            "API 服务未运行",
            "本地网关进程",
            "API 服务配置已启用，但本地网关当前没有监听端口。",
            "先启动 API 服务；如果端口被占用，清理端口或更换端口后重试。",
        ),
        TestPrecheckFailure::NoAccounts => (
            "账号集合为空",
            "账号池配置",
            "API 服务集合中没有账号，网关没有可路由的上游账号。",
            "在 API 服务账号集合中加入可用的 Codex OAuth 或 API Key 账号后再测试。",
        ),
        TestPrecheckFailure::NoModel => (
            "API 服务暂无可用模型",
            "模型配置",
            "当前 API 服务没有可用于检测的模型 ID。",
            "确认账号集合中至少有一个可用账号，并刷新模型/账号状态后再测试。",
        ),
    }
}

/// Whether a health check can start: the model to test (the first model id,
/// as it is) when it can, else the failure that says why not, which names no
/// model.
pub fn local_access_test_precheck(
    collection: Option<&CodexLocalAccessCollection>,
    running: bool,
    model_ids: &Vec<String>,
) -> (r: Result<String, CodexLocalAccessTestFailure>)
    ensures
        match test_precheck(
            match collection {
                Some(c) => Some(*c),
                None => None,
            },
            running,
            model_ids@,
        ) {
            None => r matches Ok(m) && m@ == model_ids@[0]@,
            Some(f) => r matches Err(e) && (e.title@, e.stage@, e.cause@, e.suggestion@)
                == precheck_texts(f) && e.status is None && e.model_id is None && e.detail is None
                && e.cli_output is None && e.gateway_output is None,
        },
{
    let failure = match collection {
        None => Some(TestPrecheckFailure::NoCollection),
        Some(c) => if !c.enabled {
            Some(TestPrecheckFailure::Disabled)
        } else if !running {
            Some(TestPrecheckFailure::NotRunning)
        } else if c.account_ids.len() == 0 {
            Some(TestPrecheckFailure::NoAccounts)
        } else if model_ids.len() == 0 || trim_vec(&chars_of(model_ids[0].as_str())).len() == 0 {
            Some(TestPrecheckFailure::NoModel)
        } else {
            None
        },
    };
    match failure {
        Some(f) => {
            let (title, stage, cause, suggestion) = precheck_texts_exec(&f);
            Err(local_access_test_failure(title, stage, cause, suggestion, None))
        },
        None => Ok(crate::text::copy_string(&model_ids[0])),
    }
}

} // verus!
