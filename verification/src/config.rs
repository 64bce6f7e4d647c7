//! Application configuration: defaults, the legacy-key migration applied when
//! an older config file is read, config paths and the in-memory runtime state.
use vstd::prelude::*;
use crate::text::{chars_of, seq_eq, string_of, concat_vec, concat_str, copy_string};
use crate::json::{
    JsonValue, JsonView, JsonNumber, NumberView, json_view, entries_view, json_from_text,
    parse_json_text_or_error, push_entry, lemma_entries_view,
};
use crate::chat_payload::{i64_number, i64_value};

verus! {

broadcast use vstd::string::group_string_axioms;

/// Default WebSocket port.
pub const DEFAULT_WS_PORT: u16 = 19528;

/// How many ports are tried, starting from the configured one.
pub const PORT_RANGE: u16 = 100;

/// Server status shared with other clients through a file.
#[derive(Debug, Clone)]
pub struct ServerStatus {
    /// The port the WebSocket service is bound to.
    pub ws_port: u16,
    /// Service version.
    pub version: String,
    /// Process id, to tell whether the service is alive.
    pub pid: u32,
    /// Start time (seconds since the epoch).
    pub started_at: i64,
}

/// What happens when the main window is closed.
#[derive(Debug, Clone, Copy, PartialEq, Eq, Structural)]
pub enum CloseWindowBehavior {
    /// Ask every time.
    Ask,
    /// Minimize to the tray.
    Minimize,
    /// Quit the application.
    Quit,
}

impl Default for CloseWindowBehavior {
    fn default() -> (r: Self)
        ensures
            r == CloseWindowBehavior::Ask,
    {
        CloseWindowBehavior::Ask
    }
}

/// What happens when the window is minimized (macOS).
#[derive(Debug, Clone, Copy, PartialEq, Eq, Structural)]
pub enum MinimizeWindowBehavior {
    /// Dock and menu bar (the system's default minimize).
    DockAndTray,
    /// Menu bar only (hide the window).
    TrayOnly,
}

impl Default for MinimizeWindowBehavior {
    fn default() -> (r: Self)
        ensures
            r == MinimizeWindowBehavior::DockAndTray,
    {
        MinimizeWindowBehavior::DockAndTray
    }
}

/// Persistent user configuration.
#[derive(Debug, Clone)]
pub struct UserConfig {
    pub ws_enabled: bool,
    pub ws_port: u16,
    pub language: String,
    pub theme: String,
    pub auto_refresh_minutes: i32,
    pub codex_auto_refresh_minutes: i32,
    pub ghcp_auto_refresh_minutes: i32,
    pub windsurf_auto_refresh_minutes: i32,
    pub kiro_auto_refresh_minutes: i32,
    pub cursor_auto_refresh_minutes: i32,
    pub gemini_auto_refresh_minutes: i32,
    pub codebuddy_auto_refresh_minutes: i32,
    pub codebuddy_cn_auto_refresh_minutes: i32,
    pub qoder_auto_refresh_minutes: i32,
    pub trae_auto_refresh_minutes: i32,
    pub close_behavior: CloseWindowBehavior,
    pub minimize_behavior: MinimizeWindowBehavior,
    pub hide_dock_icon: bool,
    pub opencode_app_path: String,
    pub antigravity_app_path: String,
    pub codex_app_path: String,
    pub vscode_app_path: String,
    pub windsurf_app_path: String,
    pub kiro_app_path: String,
    pub cursor_app_path: String,
    pub codebuddy_app_path: String,
    pub codebuddy_cn_app_path: String,
    pub qoder_app_path: String,
    pub trae_app_path: String,
    pub opencode_sync_on_switch: bool,
    pub opencode_auth_overwrite_on_switch: bool,
    pub codex_launch_on_switch: bool,
    pub auto_switch_enabled: bool,
    pub auto_switch_threshold: i32,
    pub quota_alert_enabled: bool,
    pub quota_alert_threshold: i32,
    pub codex_quota_alert_enabled: bool,
    pub codex_quota_alert_threshold: i32,
    pub ghcp_quota_alert_enabled: bool,
    pub ghcp_quota_alert_threshold: i32,
    pub windsurf_quota_alert_enabled: bool,
    pub windsurf_quota_alert_threshold: i32,
    pub kiro_quota_alert_enabled: bool,
    pub kiro_quota_alert_threshold: i32,
    pub cursor_quota_alert_enabled: bool,
    pub cursor_quota_alert_threshold: i32,
    pub gemini_quota_alert_enabled: bool,
    pub gemini_quota_alert_threshold: i32,
    pub codebuddy_quota_alert_enabled: bool,
    pub codebuddy_quota_alert_threshold: i32,
    pub codebuddy_cn_quota_alert_enabled: bool,
    pub codebuddy_cn_quota_alert_threshold: i32,
    pub qoder_quota_alert_enabled: bool,
    pub qoder_quota_alert_threshold: i32,
    pub trae_quota_alert_enabled: bool,
    pub trae_quota_alert_threshold: i32,
}

fn default_ws_enabled() -> (r: bool)
    ensures
        r == true,
{
    true
}

fn default_ws_port() -> (r: u16)
    ensures
        r == DEFAULT_WS_PORT,
{
    DEFAULT_WS_PORT
}

fn default_language() -> (r: String)
    ensures
        r@ == "zh-cn"@,
{
    "zh-cn".to_string()
}

fn default_theme() -> (r: String)
    ensures
        r@ == "system"@,
{
    "system".to_string()
}

fn default_auto_refresh() -> (r: i32)
    ensures
        r == 10,
{
    10
}

fn default_codex_auto_refresh() -> (r: i32)
    ensures
        r == 10,
{
    10
}

fn default_ghcp_auto_refresh() -> (r: i32)
    ensures
        r == 10,
{
    10
}

fn default_windsurf_auto_refresh() -> (r: i32)
    ensures
        r == 10,
{
    10
}

fn default_kiro_auto_refresh() -> (r: i32)
    ensures
        r == 10,
{
    10
}

fn default_cursor_auto_refresh() -> (r: i32)
    ensures
        r == 10,
{
    10
}

fn default_gemini_auto_refresh() -> (r: i32)
    ensures
        r == 10,
{
    10
}

fn default_codebuddy_auto_refresh() -> (r: i32)
    ensures
        r == 10,
{
    10
}

fn default_codebuddy_cn_auto_refresh() -> (r: i32)
    ensures
        r == 10,
{
    10
}

fn default_qoder_auto_refresh() -> (r: i32)
    ensures
        r == 10,
{
    10
}

fn default_trae_auto_refresh() -> (r: i32)
    ensures
        r == 10,
{
    10
}

fn default_close_behavior() -> (r: CloseWindowBehavior)
    ensures
        r == CloseWindowBehavior::Ask,
{
    CloseWindowBehavior::Ask
}

fn default_minimize_behavior() -> (r: MinimizeWindowBehavior)
    ensures
        r == MinimizeWindowBehavior::DockAndTray,
{
    MinimizeWindowBehavior::DockAndTray
}

fn default_hide_dock_icon() -> (r: bool)
    ensures
        r == false,
{
    false
}

fn default_opencode_app_path() -> (r: String)
    ensures
        r@ == Seq::<char>::empty(),
{
    String::new()
}

fn default_antigravity_app_path() -> (r: String)
    ensures
        r@ == Seq::<char>::empty(),
{
    String::new()
}

fn default_codex_app_path() -> (r: String)
    ensures
        r@ == Seq::<char>::empty(),
{
    String::new()
}

fn default_vscode_app_path() -> (r: String)
    ensures
        r@ == Seq::<char>::empty(),
{
    String::new()
}

fn default_windsurf_app_path() -> (r: String)
    ensures
        r@ == Seq::<char>::empty(),
{
    String::new()
}

fn default_kiro_app_path() -> (r: String)
    ensures
        r@ == Seq::<char>::empty(),
{
    String::new()
}

fn default_cursor_app_path() -> (r: String)
    ensures
        r@ == Seq::<char>::empty(),
{
    String::new()
}

fn default_codebuddy_app_path() -> (r: String)
    ensures
        r@ == Seq::<char>::empty(),
{
    String::new()
}

fn default_codebuddy_cn_app_path() -> (r: String)
    ensures
        r@ == Seq::<char>::empty(),
{
    String::new()
}

fn default_qoder_app_path() -> (r: String)
    ensures
        r@ == Seq::<char>::empty(),
{
    String::new()
}

fn default_trae_app_path() -> (r: String)
    ensures
        r@ == Seq::<char>::empty(),
{
    String::new()
}

fn default_opencode_sync_on_switch() -> (r: bool)
    ensures
        r == true,
{
    true
}

fn default_opencode_auth_overwrite_on_switch() -> (r: bool)
    ensures
        r == true,
{
    true
}

fn default_codex_launch_on_switch() -> (r: bool)
    ensures
        r == true,
{
    true
}

fn default_auto_switch_enabled() -> (r: bool)
    ensures
        r == false,
{
    false
}

fn default_auto_switch_threshold() -> (r: i32)
    ensures
        r == 5,
{
    5
}

fn default_quota_alert_enabled() -> (r: bool)
    ensures
        r == false,
{
    false
}

fn default_quota_alert_threshold() -> (r: i32)
    ensures
        r == 20,
{
    20
}

fn default_codex_quota_alert_enabled() -> (r: bool)
    ensures
        r == false,
{
    false
}

fn default_codex_quota_alert_threshold() -> (r: i32)
    ensures
        r == 20,
{
    20
}

fn default_ghcp_quota_alert_enabled() -> (r: bool)
    ensures
        r == false,
{
    false
}

fn default_ghcp_quota_alert_threshold() -> (r: i32)
    ensures
        r == 20,
{
    20
}

fn default_windsurf_quota_alert_enabled() -> (r: bool)
    ensures
        r == false,
{
    false
}

fn default_windsurf_quota_alert_threshold() -> (r: i32)
    ensures
        r == 20,
{
    20
}

fn default_kiro_quota_alert_enabled() -> (r: bool)
    ensures
        r == false,
{
    false
}

fn default_kiro_quota_alert_threshold() -> (r: i32)
    ensures
        r == 20,
{
    20
}

fn default_cursor_quota_alert_enabled() -> (r: bool)
    ensures
        r == false,
{
    false
}

fn default_cursor_quota_alert_threshold() -> (r: i32)
    ensures
        r == 20,
{
    20
}

fn default_gemini_quota_alert_enabled() -> (r: bool)
    ensures
        r == false,
{
    false
}

fn default_gemini_quota_alert_threshold() -> (r: i32)
    ensures
        r == 20,
{
    20
}

fn default_codebuddy_quota_alert_enabled() -> (r: bool)
    ensures
        r == false,
{
    false
}

fn default_codebuddy_quota_alert_threshold() -> (r: i32)
    ensures
        r == 20,
{
    20
}

fn default_codebuddy_cn_quota_alert_enabled() -> (r: bool)
    ensures
        r == false,
{
    false
}

fn default_codebuddy_cn_quota_alert_threshold() -> (r: i32)
    ensures
        r == 20,
{
    20
}

fn default_qoder_quota_alert_enabled() -> (r: bool)
    ensures
        r == false,
{
    false
}

fn default_qoder_quota_alert_threshold() -> (r: i32)
    ensures
        r == 20,
{
    20
}

fn default_trae_quota_alert_enabled() -> (r: bool)
    ensures
        r == false,
{
    false
}

fn default_trae_quota_alert_threshold() -> (r: i32)
    ensures
        r == 20,
{
    20
}

/// Every field holds its default value.
pub open spec fn is_default_config(c: UserConfig) -> bool {
    &&& c.ws_enabled == true
    &&& c.ws_port == DEFAULT_WS_PORT
    &&& c.language@ == "zh-cn"@
    &&& c.theme@ == "system"@
    &&& c.auto_refresh_minutes == 10
    &&& c.codex_auto_refresh_minutes == 10
    &&& c.ghcp_auto_refresh_minutes == 10
    &&& c.windsurf_auto_refresh_minutes == 10
    &&& c.kiro_auto_refresh_minutes == 10
    &&& c.cursor_auto_refresh_minutes == 10
    &&& c.gemini_auto_refresh_minutes == 10
    &&& c.codebuddy_auto_refresh_minutes == 10
    &&& c.codebuddy_cn_auto_refresh_minutes == 10
    &&& c.qoder_auto_refresh_minutes == 10
    &&& c.trae_auto_refresh_minutes == 10
    &&& c.close_behavior == CloseWindowBehavior::Ask
    &&& c.minimize_behavior == MinimizeWindowBehavior::DockAndTray
    &&& c.hide_dock_icon == false
    &&& c.opencode_app_path@ == Seq::<char>::empty()
    &&& c.antigravity_app_path@ == Seq::<char>::empty()
    &&& c.codex_app_path@ == Seq::<char>::empty()
    &&& c.vscode_app_path@ == Seq::<char>::empty()
    &&& c.windsurf_app_path@ == Seq::<char>::empty()
    &&& c.kiro_app_path@ == Seq::<char>::empty()
    &&& c.cursor_app_path@ == Seq::<char>::empty()
    &&& c.codebuddy_app_path@ == Seq::<char>::empty()
    &&& c.codebuddy_cn_app_path@ == Seq::<char>::empty()
    &&& c.qoder_app_path@ == Seq::<char>::empty()
    &&& c.trae_app_path@ == Seq::<char>::empty()
    &&& c.opencode_sync_on_switch == true
    &&& c.opencode_auth_overwrite_on_switch == true
    &&& c.codex_launch_on_switch == true
    &&& c.auto_switch_enabled == false
    &&& c.auto_switch_threshold == 5
    &&& c.quota_alert_enabled == false
    &&& c.quota_alert_threshold == 20
    &&& c.codex_quota_alert_enabled == false
    &&& c.codex_quota_alert_threshold == 20
    &&& c.ghcp_quota_alert_enabled == false
    &&& c.ghcp_quota_alert_threshold == 20
    &&& c.windsurf_quota_alert_enabled == false
    &&& c.windsurf_quota_alert_threshold == 20
    &&& c.kiro_quota_alert_enabled == false
    &&& c.kiro_quota_alert_threshold == 20
    &&& c.cursor_quota_alert_enabled == false
    &&& c.cursor_quota_alert_threshold == 20
    &&& c.gemini_quota_alert_enabled == false
    &&& c.gemini_quota_alert_threshold == 20
    &&& c.codebuddy_quota_alert_enabled == false
    &&& c.codebuddy_quota_alert_threshold == 20
    &&& c.codebuddy_cn_quota_alert_enabled == false
    &&& c.codebuddy_cn_quota_alert_threshold == 20
    &&& c.qoder_quota_alert_enabled == false
    &&& c.qoder_quota_alert_threshold == 20
    &&& c.trae_quota_alert_enabled == false
    &&& c.trae_quota_alert_threshold == 20
}

impl Default for UserConfig {
    fn default() -> (r: Self)
        ensures
            is_default_config(r),
    {
        UserConfig {
            ws_enabled: default_ws_enabled(),
            ws_port: default_ws_port(),
            language: default_language(),
            theme: default_theme(),
            auto_refresh_minutes: default_auto_refresh(),
            codex_auto_refresh_minutes: default_codex_auto_refresh(),
            ghcp_auto_refresh_minutes: default_ghcp_auto_refresh(),
            windsurf_auto_refresh_minutes: default_windsurf_auto_refresh(),
            kiro_auto_refresh_minutes: default_kiro_auto_refresh(),
            cursor_auto_refresh_minutes: default_cursor_auto_refresh(),
            gemini_auto_refresh_minutes: default_gemini_auto_refresh(),
            codebuddy_auto_refresh_minutes: default_codebuddy_auto_refresh(),
            codebuddy_cn_auto_refresh_minutes: default_codebuddy_cn_auto_refresh(),
            qoder_auto_refresh_minutes: default_qoder_auto_refresh(),
            trae_auto_refresh_minutes: default_trae_auto_refresh(),
            close_behavior: default_close_behavior(),
            minimize_behavior: default_minimize_behavior(),
            hide_dock_icon: default_hide_dock_icon(),
            opencode_app_path: default_opencode_app_path(),
            antigravity_app_path: default_antigravity_app_path(),
            codex_app_path: default_codex_app_path(),
            vscode_app_path: default_vscode_app_path(),
            windsurf_app_path: default_windsurf_app_path(),
            kiro_app_path: default_kiro_app_path(),
            cursor_app_path: default_cursor_app_path(),
            codebuddy_app_path: default_codebuddy_app_path(),
            codebuddy_cn_app_path: default_codebuddy_cn_app_path(),
            qoder_app_path: default_qoder_app_path(),
            trae_app_path: default_trae_app_path(),
            opencode_sync_on_switch: default_opencode_sync_on_switch(),
            opencode_auth_overwrite_on_switch: default_opencode_auth_overwrite_on_switch(),
            codex_launch_on_switch: default_codex_launch_on_switch(),
            auto_switch_enabled: default_auto_switch_enabled(),
            auto_switch_threshold: default_auto_switch_threshold(),
            quota_alert_enabled: default_quota_alert_enabled(),
            quota_alert_threshold: default_quota_alert_threshold(),
            codex_quota_alert_enabled: default_codex_quota_alert_enabled(),
            codex_quota_alert_threshold: default_codex_quota_alert_threshold(),
            ghcp_quota_alert_enabled: default_ghcp_quota_alert_enabled(),
            ghcp_quota_alert_threshold: default_ghcp_quota_alert_threshold(),
            windsurf_quota_alert_enabled: default_windsurf_quota_alert_enabled(),
            windsurf_quota_alert_threshold: default_windsurf_quota_alert_threshold(),
            kiro_quota_alert_enabled: default_kiro_quota_alert_enabled(),
            kiro_quota_alert_threshold: default_kiro_quota_alert_threshold(),
            cursor_quota_alert_enabled: default_cursor_quota_alert_enabled(),
            cursor_quota_alert_threshold: default_cursor_quota_alert_threshold(),
            gemini_quota_alert_enabled: default_gemini_quota_alert_enabled(),
            gemini_quota_alert_threshold: default_gemini_quota_alert_threshold(),
            codebuddy_quota_alert_enabled: default_codebuddy_quota_alert_enabled(),
            codebuddy_quota_alert_threshold: default_codebuddy_quota_alert_threshold(),
            codebuddy_cn_quota_alert_enabled: default_codebuddy_cn_quota_alert_enabled(),
            codebuddy_cn_quota_alert_threshold: default_codebuddy_cn_quota_alert_threshold(),
            qoder_quota_alert_enabled: default_qoder_quota_alert_enabled(),
            qoder_quota_alert_threshold: default_qoder_quota_alert_threshold(),
            trae_quota_alert_enabled: default_trae_quota_alert_enabled(),
            trae_quota_alert_threshold: default_trae_quota_alert_threshold(),
        }
    }
}

impl UserConfig {
    /// A copy of the configuration.
    pub fn snapshot(&self) -> (r: UserConfig)
        ensures
            r == *self,
    {
        UserConfig {
            ws_enabled: self.ws_enabled,
            ws_port: self.ws_port,
            language: self.language.clone(),
            theme: self.theme.clone(),
            auto_refresh_minutes: self.auto_refresh_minutes,
            codex_auto_refresh_minutes: self.codex_auto_refresh_minutes,
            ghcp_auto_refresh_minutes: self.ghcp_auto_refresh_minutes,
            windsurf_auto_refresh_minutes: self.windsurf_auto_refresh_minutes,
            kiro_auto_refresh_minutes: self.kiro_auto_refresh_minutes,
            cursor_auto_refresh_minutes: self.cursor_auto_refresh_minutes,
            gemini_auto_refresh_minutes: self.gemini_auto_refresh_minutes,
            codebuddy_auto_refresh_minutes: self.codebuddy_auto_refresh_minutes,
            codebuddy_cn_auto_refresh_minutes: self.codebuddy_cn_auto_refresh_minutes,
            qoder_auto_refresh_minutes: self.qoder_auto_refresh_minutes,
            trae_auto_refresh_minutes: self.trae_auto_refresh_minutes,
            close_behavior: self.close_behavior,
            minimize_behavior: self.minimize_behavior,
            hide_dock_icon: self.hide_dock_icon,
            opencode_app_path: self.opencode_app_path.clone(),
            antigravity_app_path: self.antigravity_app_path.clone(),
            codex_app_path: self.codex_app_path.clone(),
            vscode_app_path: self.vscode_app_path.clone(),
            windsurf_app_path: self.windsurf_app_path.clone(),
            kiro_app_path: self.kiro_app_path.clone(),
            cursor_app_path: self.cursor_app_path.clone(),
            codebuddy_app_path: self.codebuddy_app_path.clone(),
            codebuddy_cn_app_path: self.codebuddy_cn_app_path.clone(),
            qoder_app_path: self.qoder_app_path.clone(),
            trae_app_path: self.trae_app_path.clone(),
            opencode_sync_on_switch: self.opencode_sync_on_switch,
            opencode_auth_overwrite_on_switch: self.opencode_auth_overwrite_on_switch,
            codex_launch_on_switch: self.codex_launch_on_switch,
            auto_switch_enabled: self.auto_switch_enabled,
            auto_switch_threshold: self.auto_switch_threshold,
            quota_alert_enabled: self.quota_alert_enabled,
            quota_alert_threshold: self.quota_alert_threshold,
            codex_quota_alert_enabled: self.codex_quota_alert_enabled,
            codex_quota_alert_threshold: self.codex_quota_alert_threshold,
            ghcp_quota_alert_enabled: self.ghcp_quota_alert_enabled,
            ghcp_quota_alert_threshold: self.ghcp_quota_alert_threshold,
            windsurf_quota_alert_enabled: self.windsurf_quota_alert_enabled,
            windsurf_quota_alert_threshold: self.windsurf_quota_alert_threshold,
            kiro_quota_alert_enabled: self.kiro_quota_alert_enabled,
            kiro_quota_alert_threshold: self.kiro_quota_alert_threshold,
            cursor_quota_alert_enabled: self.cursor_quota_alert_enabled,
            cursor_quota_alert_threshold: self.cursor_quota_alert_threshold,
            gemini_quota_alert_enabled: self.gemini_quota_alert_enabled,
            gemini_quota_alert_threshold: self.gemini_quota_alert_threshold,
            codebuddy_quota_alert_enabled: self.codebuddy_quota_alert_enabled,
            codebuddy_quota_alert_threshold: self.codebuddy_quota_alert_threshold,
            codebuddy_cn_quota_alert_enabled: self.codebuddy_cn_quota_alert_enabled,
            codebuddy_cn_quota_alert_threshold: self.codebuddy_cn_quota_alert_threshold,
            qoder_quota_alert_enabled: self.qoder_quota_alert_enabled,
            qoder_quota_alert_threshold: self.qoder_quota_alert_threshold,
            trae_quota_alert_enabled: self.trae_quota_alert_enabled,
            trae_quota_alert_threshold: self.trae_quota_alert_threshold,
        }
    }
}

} // verus!

verus! {

// ---------------------------------------------------------------------------
// Paths
// ---------------------------------------------------------------------------

/// Whether a character separates path components on a platform whose main
/// separator is `sep`: `/` always, and the main separator.
pub open spec fn is_path_separator(c: char, sep: char) -> bool {
    c == '/' || c == sep
}

/// `name` appended to `base` as a relative path component, as `PathBuf::join`
/// does on a platform whose main separator is `sep`: the separator goes
/// between them unless `base` is empty or already ends with one.
pub open spec fn join_path(base: Seq<char>, name: Seq<char>, sep: char) -> Seq<char> {
    if base.len() == 0 {
        name
    } else if is_path_separator(base.last(), sep) {
        base + name
    } else {
        base + seq![sep] + name
    }
}

/// The platform's main path separator, `std::path::MAIN_SEPARATOR`: `/` on
/// Unix, `\\` on Windows.
#[verifier::external_body]
fn main_separator() -> (r: char)
    ensures
        r == '/' || r == '\\',
{
    std::path::MAIN_SEPARATOR
}

/// Appends a relative path component to a path.
pub fn join_path_exec(base: &str, name: &str, sep: char) -> (r: String)
    ensures
        r@ == join_path(base@, name@, sep),
{
    let b = chars_of(base);
    let n = chars_of(name);
    if b.len() == 0 {
        return string_of(&n);
    }
    let last = b[b.len() - 1];
    if last == '/' || last == sep {
        return string_of(&concat_vec(&b, &n));
    }
    let mut s: Vec<char> = Vec::new();
    s.push(sep);
    proof {
        assert(s@ == seq![sep]);
    }
    string_of(&concat_vec(&concat_vec(&b, &s), &n))
}

/// The data directory under the home directory, with the given separator;
/// an error without a home.
pub fn get_data_dir_with(home_dir: Option<String>, sep: char) -> (r: Result<String, String>)
    ensures
        match home_dir {
            None => r is Err,
            Some(h) => r matches Ok(p) && p@ == join_path(h@, ".antigravity_cockpit"@, sep),
        },
{
    match home_dir {
        None => Err("无法获取 Home 目录".to_string()),
        Some(h) => Ok(join_path_exec(h.as_str(), ".antigravity_cockpit", sep)),
    }
}

/// The data directory under the home directory; an error without a home.
pub fn get_data_dir(home_dir: Option<String>) -> (r: Result<String, String>)
    ensures
        match home_dir {
            None => r is Err,
            Some(h) => r matches Ok(p) && exists|sep: char|
                (sep == '/' || sep == '\\') && p@ == join_path(h@, ".antigravity_cockpit"@, sep),
        },
{
    get_data_dir_with(home_dir, main_separator())
}

/// The shared data directory, with the given separator: under the home
/// directory, or relative when there is no home.
pub fn get_shared_dir_with(home_dir: Option<String>, sep: char) -> (r: String)
    ensures
        match home_dir {
            None => r@ == ".antigravity_cockpit"@,
            Some(h) => r@ == join_path(h@, ".antigravity_cockpit"@, sep),
        },
{
    match home_dir {
        None => ".antigravity_cockpit".to_string(),
        Some(h) => join_path_exec(h.as_str(), ".antigravity_cockpit", sep),
    }
}

/// The shared data directory: under the home directory, or relative when
/// there is no home.
pub fn get_shared_dir(home_dir: Option<String>) -> (r: String)
    ensures
        match home_dir {
            None => r@ == ".antigravity_cockpit"@,
            Some(h) => exists|sep: char|
                (sep == '/' || sep == '\\') && r@ == join_path(h@, ".antigravity_cockpit"@, sep),
        },
{
    get_shared_dir_with(home_dir, main_separator())
}

/// The path of the shared server status file, with the given separator.
pub fn get_server_status_path_with(home_dir: Option<String>, sep: char) -> (r: Result<String, String>)
    ensures
        match home_dir {
            None => r is Err,
            Some(h) => r matches Ok(p) && p@ == join_path(join_path(h@, ".antigravity_cockpit"@, sep), "server.json"@, sep),
        },
{
    let data_dir = get_data_dir_with(home_dir, sep)?;
    Ok(join_path_exec(data_dir.as_str(), "server.json", sep))
}

/// The path of the shared server status file.
pub fn get_server_status_path(home_dir: Option<String>) -> (r: Result<String, String>)
    ensures
        match home_dir {
            None => r is Err,
            Some(h) => r matches Ok(p) && exists|sep: char|
                (sep == '/' || sep == '\\') && p@ == join_path(join_path(h@, ".antigravity_cockpit"@, sep), "server.json"@, sep),
        },
{
    get_server_status_path_with(home_dir, main_separator())
}

/// The path of the user configuration file, with the given separator.
pub fn get_user_config_path_with(home_dir: Option<String>, sep: char) -> (r: Result<String, String>)
    ensures
        match home_dir {
            None => r is Err,
            Some(h) => r matches Ok(p) && p@ == join_path(join_path(h@, ".antigravity_cockpit"@, sep), "config.json"@, sep),
        },
{
    let data_dir = get_data_dir_with(home_dir, sep)?;
    Ok(join_path_exec(data_dir.as_str(), "config.json", sep))
}

/// The path of the user configuration file.
pub fn get_user_config_path(home_dir: Option<String>) -> (r: Result<String, String>)
    ensures
        match home_dir {
            None => r is Err,
            Some(h) => r matches Ok(p) && exists|sep: char|
                (sep == '/' || sep == '\\') && p@ == join_path(join_path(h@, ".antigravity_cockpit"@, sep), "config.json"@, sep),
        },
{
    get_user_config_path_with(home_dir, main_separator())
}

// ---------------------------------------------------------------------------
// Runtime state
// ---------------------------------------------------------------------------

/// The in-memory configuration state: the port actually bound and the user
/// configuration.
#[derive(Debug, Clone)]
pub struct RuntimeState {
    pub actual_port: Option<u16>,
    pub user_config: UserConfig,
}

impl RuntimeState {
    /// The state at start-up: no port bound yet, the loaded configuration or
    /// the defaults when it could not be loaded.
    pub fn new(loaded: Option<UserConfig>) -> (r: RuntimeState)
        ensures
            r.actual_port is None,
            match loaded {
                Some(c) => r.user_config == c,
                None => is_default_config(r.user_config),
            },
    {
        let user_config = match loaded {
            Some(c) => c,
            None => UserConfig::default(),
        };
        RuntimeState { actual_port: None, user_config }
    }
}


} // verus!

verus! {

/// The user configuration held in memory.
pub fn get_user_config(state: &RuntimeState) -> (r: UserConfig)
    ensures
        r == state.user_config,
{
    state.user_config.snapshot()
}

/// The port the user prefers for the WebSocket service.
pub fn get_preferred_port(state: &RuntimeState) -> (r: u16)
    ensures
        r == state.user_config.ws_port,
{
    state.user_config.ws_port
}

/// The port the WebSocket service is actually bound to, once it is.
pub fn get_actual_port(state: &RuntimeState) -> (r: Option<u16>)
    ensures
        r == state.actual_port,
{
    state.actual_port
}

/// Records a saved configuration in memory.
pub fn set_user_config(state: &mut RuntimeState, config: UserConfig)
    ensures
        final(state).user_config == config,
        final(state).actual_port == old(state).actual_port,
{
    state.user_config = config;
}

/// Records the bound port and builds the status that is shared with other
/// clients.
pub fn init_server_status(
    state: &mut RuntimeState,
    actual_port: u16,
    version: String,
    pid: u32,
    started_at: i64,
) -> (r: ServerStatus)
    ensures
        final(state).actual_port == Some(actual_port),
        final(state).user_config == old(state).user_config,
        r.ws_port == actual_port,
        r.version == version,
        r.pid == pid,
        r.started_at == started_at,
{
    state.actual_port = Some(actual_port);
    ServerStatus { ws_port: actual_port, version, pid, started_at }
}

// ---------------------------------------------------------------------------
// Migration of older config files
// ---------------------------------------------------------------------------

/// A scalar value of a top-level key in the config file.
#[derive(Debug, Clone)]
pub enum ConfigValue {
    /// An integer that fits `i64`.
    Int(i64),
    Bool(bool),
    Str(String),
    /// Anything else (a float, an array, an object, null, a larger integer).
    Other,
}

/// One top-level key of the config file and its value.
#[derive(Debug, Clone)]
pub struct ConfigEntry {
    pub key: String,
    pub value: ConfigValue,
}

/// The abstract value of an entry.
pub enum ValueView {
    Int(i64),
    Bool(bool),
    Str(Seq<char>),
    Other,
}

pub open spec fn value_view(v: ConfigValue) -> ValueView {
    match v {
        ConfigValue::Int(i) => ValueView::Int(i),
        ConfigValue::Bool(b) => ValueView::Bool(b),
        ConfigValue::Str(s) => ValueView::Str(s@),
        ConfigValue::Other => ValueView::Other,
    }
}

pub open spec fn entry_views(entries: Seq<ConfigEntry>) -> Seq<(Seq<char>, ValueView)> {
    entries.map_values(|e: ConfigEntry| (e.key@, value_view(e.value)))
}

/// The value of the first entry with the key.
pub open spec fn lookup_key(entries: Seq<(Seq<char>, ValueView)>, key: Seq<char>) -> Option<ValueView>
    decreases entries.len(),
{
    if entries.len() == 0 {
        None
    } else if entries[0].0 == key {
        Some(entries[0].1)
    } else {
        lookup_key(entries.drop_first(), key)
    }
}

/// The entries with `key` set to `value` when the key is absent.
pub open spec fn with_default(entries: Seq<(Seq<char>, ValueView)>, key: Seq<char>, value: ValueView) -> Seq<(Seq<char>, ValueView)> {
    if lookup_key(entries, key) is Some {
        entries
    } else {
        entries.push((key, value))
    }
}

/// The integer of the first of `keys` that is present (as `i32`), or `default`
/// when none is present or the first present one is not an integer.
pub open spec fn inherited_int(entries: Seq<(Seq<char>, ValueView)>, keys: Seq<Seq<char>>, default: i32) -> i32
    decreases keys.len(),
{
    if keys.len() == 0 {
        default
    } else {
        match lookup_key(entries, keys[0]) {
            Some(ValueView::Int(v)) => v as i32,
            Some(_) => default,
            None => inherited_int(entries, keys.drop_first(), default),
        }
    }
}

/// A refresh interval inherited from the first present of `keys`.
pub open spec fn inherit_refresh(entries: Seq<(Seq<char>, ValueView)>, key: Seq<char>, keys: Seq<Seq<char>>) -> Seq<(Seq<char>, ValueView)> {
    with_default(entries, key, ValueView::Int(inherited_int(entries, keys, 10) as i64))
}

/// Whether the window was configured to hide into the tray only.
pub open spec fn hides_dock(entries: Seq<(Seq<char>, ValueView)>) -> bool {
    match lookup_key(entries, "minimize_behavior"@) {
        Some(ValueView::Str(s)) => s == "tray_only"@,
        _ => false,
    }
}

/// The platforms whose quota alert settings fall back to the global ones.
pub open spec fn alert_platforms() -> Seq<Seq<char>> {
    seq!["codex"@, "ghcp"@, "windsurf"@, "kiro"@, "cursor"@, "gemini"@, "codebuddy"@, "codebuddy_cn"@, "qoder"@, "trae"@]
}

/// Alert settings of the platforms from `i` on, defaulted from the legacy ones.
pub open spec fn alert_defaults_from(entries: Seq<(Seq<char>, ValueView)>, i: int, enabled: bool, threshold: i32) -> Seq<(Seq<char>, ValueView)>
    decreases 10 - i,
{
    if i >= 10 || i < 0 {
        entries
    } else {
        let p = alert_platforms()[i];
        let a = with_default(entries, p + "_quota_alert_enabled"@, ValueView::Bool(enabled));
        let b = with_default(a, p + "_quota_alert_threshold"@, ValueView::Int(threshold as i64));
        alert_defaults_from(b, i + 1, enabled, threshold)
    }
}

/// The config entries after filling the keys that older versions lacked:
/// refresh intervals inherit from related platforms, the dock setting from the
/// minimize behavior, per-platform quota alerts from the global alert.
pub open spec fn migrated_entries(e0: Seq<(Seq<char>, ValueView)>) -> Seq<(Seq<char>, ValueView)> {
    let e1 = inherit_refresh(e0, "kiro_auto_refresh_minutes"@, seq!["windsurf_auto_refresh_minutes"@]);
    let e2 = inherit_refresh(e1, "cursor_auto_refresh_minutes"@, seq!["kiro_auto_refresh_minutes"@, "windsurf_auto_refresh_minutes"@]);
    let e3 = inherit_refresh(e2, "gemini_auto_refresh_minutes"@, seq!["cursor_auto_refresh_minutes"@, "kiro_auto_refresh_minutes"@, "windsurf_auto_refresh_minutes"@]);
    let e4 = inherit_refresh(e3, "qoder_auto_refresh_minutes"@, seq!["gemini_auto_refresh_minutes"@, "cursor_auto_refresh_minutes"@, "kiro_auto_refresh_minutes"@]);
    let e5 = inherit_refresh(e4, "codebuddy_cn_auto_refresh_minutes"@, seq!["codebuddy_auto_refresh_minutes"@, "gemini_auto_refresh_minutes"@]);
    let e6 = inherit_refresh(e5, "trae_auto_refresh_minutes"@, seq!["qoder_auto_refresh_minutes"@, "gemini_auto_refresh_minutes"@]);
    let e7 = with_default(e6, "hide_dock_icon"@, ValueView::Bool(hides_dock(e6)));
    let enabled = match lookup_key(e7, "quota_alert_enabled"@) {
        Some(ValueView::Bool(b)) => b,
        _ => false,
    };
    let threshold = inherited_int(e7, seq!["quota_alert_threshold"@], 20);
    alert_defaults_from(e7, 0, enabled, threshold)
}

fn lookup_key_exec<'a>(entries: &'a Vec<ConfigEntry>, key: &str) -> (r: Option<&'a ConfigValue>)
    ensures
        match r {
            Some(v) => lookup_key(entry_views(entries@), key@) == Some(value_view(*v)),
            None => lookup_key(entry_views(entries@), key@) is None,
        },
{
    let ghost ev = entry_views(entries@);
    let k = chars_of(key);
    let mut i: usize = 0;
    proof {
        assert(ev.skip(0) =~= ev);
    }
    while i < entries.len()
        invariant
            i <= entries.len(),
            ev == entry_views(entries@),
            lookup_key(ev, key@) == lookup_key(ev.skip(i as int), key@),
            k@ == key@,
        decreases entries.len() - i,
    {
        proof {
            assert(ev.skip(i as int)[0] == ev[i as int]);
            assert(ev.skip(i as int).drop_first() =~= ev.skip(i as int + 1));
        }
        if seq_eq(&chars_of(entries[i].key.as_str()), &k) {
            return Some(&entries[i].value);
        }
        i = i + 1;
    }
    None
}

fn with_default_exec(entries: &mut Vec<ConfigEntry>, key: String, value: ConfigValue)
    ensures
        entry_views(final(entries)@) == with_default(entry_views(old(entries)@), key@, value_view(value)),
{
    if lookup_key_exec(entries, key.as_str()).is_some() {
        return;
    }
    let ghost before = entry_views(entries@);
    entries.push(ConfigEntry { key, value });
    proof {
        assert(entry_views(entries@) =~= before.push((key@, value_view(value))));
    }
}

fn inherited_int_exec(entries: &Vec<ConfigEntry>, keys: &Vec<&str>, default: i32) -> (r: i32)
    ensures
        r == inherited_int(entry_views(entries@), keys@.map_values(|k: &str| k@), default),
{
    let ghost ks = keys@.map_values(|k: &str| k@);
    let mut i: usize = 0;
    proof {
        assert(ks.skip(0) =~= ks);
    }
    while i < keys.len()
        invariant
            i <= keys.len(),
            ks == keys@.map_values(|k: &str| k@),
            inherited_int(entry_views(entries@), ks, default) == inherited_int(entry_views(entries@), ks.skip(i as int), default),
        decreases keys.len() - i,
    {
        proof {
            assert(ks.skip(i as int)[0] == keys@[i as int]@);
            assert(ks.skip(i as int).drop_first() =~= ks.skip(i as int + 1));
        }
        match lookup_key_exec(entries, keys[i]) {
            Some(ConfigValue::Int(v)) => return *v as i32,
            Some(_) => return default,
            None => {},
        }
        i = i + 1;
    }
    default
}

fn inherit_refresh_exec(entries: &mut Vec<ConfigEntry>, key: &str, keys: Vec<&str>)
    ensures
        entry_views(final(entries)@) == inherit_refresh(entry_views(old(entries)@), key@, keys@.map_values(|k: &str| k@)),
{
    let v = inherited_int_exec(entries, &keys, 10);
    with_default_exec(entries, key.to_string(), ConfigValue::Int(v as i64));
}

/// Fills the keys that older config files lack, as `migrated_entries` says;
/// the entries already present are kept, new ones are appended.
pub fn migrate_legacy_config(entries: &mut Vec<ConfigEntry>)
    ensures
        entry_views(final(entries)@) == migrated_entries(entry_views(old(entries)@)),
{
    let ghost e0 = entry_views(entries@);
    let keys1 = vec!["windsurf_auto_refresh_minutes"];
    proof {
        assert(keys1@.map_values(|k: &str| k@) =~= seq!["windsurf_auto_refresh_minutes"@]);
    }
    inherit_refresh_exec(entries, "kiro_auto_refresh_minutes", keys1);
    let ghost e1 = entry_views(entries@);
    let keys2 = vec!["kiro_auto_refresh_minutes", "windsurf_auto_refresh_minutes"];
    proof {
        assert(keys2@.map_values(|k: &str| k@) =~= seq!["kiro_auto_refresh_minutes"@, "windsurf_auto_refresh_minutes"@]);
    }
    inherit_refresh_exec(entries, "cursor_auto_refresh_minutes", keys2);
    let ghost e2 = entry_views(entries@);
    let keys3 = vec!["cursor_auto_refresh_minutes", "kiro_auto_refresh_minutes", "windsurf_auto_refresh_minutes"];
    proof {
        assert(keys3@.map_values(|k: &str| k@) =~= seq!["cursor_auto_refresh_minutes"@, "kiro_auto_refresh_minutes"@, "windsurf_auto_refresh_minutes"@]);
    }
    inherit_refresh_exec(entries, "gemini_auto_refresh_minutes", keys3);
    let ghost e3 = entry_views(entries@);
    let keys4 = vec!["gemini_auto_refresh_minutes", "cursor_auto_refresh_minutes", "kiro_auto_refresh_minutes"];
    proof {
        assert(keys4@.map_values(|k: &str| k@) =~= seq!["gemini_auto_refresh_minutes"@, "cursor_auto_refresh_minutes"@, "kiro_auto_refresh_minutes"@]);
    }
    inherit_refresh_exec(entries, "qoder_auto_refresh_minutes", keys4);
    let ghost e4 = entry_views(entries@);
    let keys5 = vec!["codebuddy_auto_refresh_minutes", "gemini_auto_refresh_minutes"];
    proof {
        assert(keys5@.map_values(|k: &str| k@) =~= seq!["codebuddy_auto_refresh_minutes"@, "gemini_auto_refresh_minutes"@]);
    }
    inherit_refresh_exec(entries, "codebuddy_cn_auto_refresh_minutes", keys5);
    let ghost e5 = entry_views(entries@);
    let keys6 = vec!["qoder_auto_refresh_minutes", "gemini_auto_refresh_minutes"];
    proof {
        assert(keys6@.map_values(|k: &str| k@) =~= seq!["qoder_auto_refresh_minutes"@, "gemini_auto_refresh_minutes"@]);
    }
    inherit_refresh_exec(entries, "trae_auto_refresh_minutes", keys6);
    let ghost e6 = entry_views(entries@);
    proof {
        assert(e1 == inherit_refresh(e0, "kiro_auto_refresh_minutes"@, seq!["windsurf_auto_refresh_minutes"@]));
    }
    let hide = match lookup_key_exec(entries, "minimize_behavior") {
        Some(ConfigValue::Str(s)) => seq_eq(&chars_of(s.as_str()), &chars_of("tray_only")),
        _ => false,
    };
    with_default_exec(entries, "hide_dock_icon".to_string(), ConfigValue::Bool(hide));
    let enabled = match lookup_key_exec(entries, "quota_alert_enabled") {
        Some(ConfigValue::Bool(b)) => *b,
        _ => false,
    };
    let tkeys = vec!["quota_alert_threshold"];
    proof {
        assert(tkeys@.map_values(|k: &str| k@) =~= seq!["quota_alert_threshold"@]);
    }
    let threshold = inherited_int_exec(entries, &tkeys, 20);
    let platforms = vec![
        "codex", "ghcp", "windsurf", "kiro", "cursor", "gemini", "codebuddy", "codebuddy_cn",
        "qoder", "trae",
    ];
    let ghost e7 = entry_views(entries@);
    proof {
        assert(platforms@.map_values(|k: &str| k@) =~= alert_platforms());
    }
    let mut i: usize = 0;
    while i < platforms.len()
        invariant
            i <= platforms.len() == 10,
            platforms@.map_values(|k: &str| k@) == alert_platforms(),
            alert_defaults_from(e7, 0, enabled, threshold) == alert_defaults_from(entry_views(entries@), i as int, enabled, threshold),
        decreases platforms.len() - i,
    {
        proof {
            assert(platforms@.map_values(|k: &str| k@)[i as int] == platforms@[i as int]@);
        }
        let p = platforms[i];
        with_default_exec(entries, concat_str(p, "_quota_alert_enabled"), ConfigValue::Bool(enabled));
        with_default_exec(entries, concat_str(p, "_quota_alert_threshold"), ConfigValue::Int(threshold as i64));
        i = i + 1;
    }
}

/// How the migration reads a member's value: an integer that fits `i64`, a
/// boolean, a text, or anything else.
pub open spec fn config_value_of(j: JsonView) -> ValueView {
    match j {
        JsonView::Number(NumberView::PosInt(u)) => if u <= i64::MAX {
            ValueView::Int(u as i64)
        } else {
            ValueView::Other
        },
        JsonView::Number(NumberView::NegInt(i)) => ValueView::Int(i),
        JsonView::Bool(b) => ValueView::Bool(b),
        JsonView::Str(t) => ValueView::Str(t),
        _ => ValueView::Other,
    }
}

/// A value the migration adds, as JSON.
pub open spec fn value_json(v: ValueView) -> JsonView {
    match v {
        ValueView::Int(i) => i64_number(i),
        ValueView::Bool(b) => JsonView::Bool(b),
        ValueView::Str(t) => JsonView::Str(t),
        ValueView::Other => JsonView::Null,
    }
}

/// The members of a config object as the migration reads them.
pub open spec fn config_members(members: Seq<(Seq<char>, JsonView)>) -> Seq<(Seq<char>, ValueView)> {
    members.map_values(|m: (Seq<char>, JsonView)| (m.0, config_value_of(m.1)))
}

/// A parsed config file after the migration: an object keeps its members
/// and gains, at the end, the ones `migrated_entries` adds; any other value
/// is left as it is.
pub open spec fn migrated_config_json(v: JsonValue) -> JsonView {
    match v {
        JsonValue::Object(entries) => {
            let members = entries_view(entries@);
            let cv = config_members(members);
            JsonView::Object(
                members + migrated_entries(cv).skip(cv.len() as int).map_values(
                    |e: (Seq<char>, ValueView)| (e.0, value_json(e.1)),
                ),
            )
        },
        _ => json_view(v),
    }
}

proof fn lemma_alert_defaults_grow(e: Seq<(Seq<char>, ValueView)>, i: int, enabled: bool, threshold: i32)
    ensures
        alert_defaults_from(e, i, enabled, threshold).len() >= e.len(),
    decreases 10 - i,
{
    if 0 <= i < 10 {
        let p = alert_platforms()[i];
        let a = with_default(e, p + "_quota_alert_enabled"@, ValueView::Bool(enabled));
        let b = with_default(a, p + "_quota_alert_threshold"@, ValueView::Int(threshold as i64));
        lemma_alert_defaults_grow(b, i + 1, enabled, threshold);
    }
}

/// The migration only adds entries.
proof fn lemma_migrated_grows(e0: Seq<(Seq<char>, ValueView)>)
    ensures
        migrated_entries(e0).len() >= e0.len(),
{
    let e1 = inherit_refresh(e0, "kiro_auto_refresh_minutes"@, seq!["windsurf_auto_refresh_minutes"@]);
    let e2 = inherit_refresh(e1, "cursor_auto_refresh_minutes"@, seq!["kiro_auto_refresh_minutes"@, "windsurf_auto_refresh_minutes"@]);
    let e3 = inherit_refresh(e2, "gemini_auto_refresh_minutes"@, seq!["cursor_auto_refresh_minutes"@, "kiro_auto_refresh_minutes"@, "windsurf_auto_refresh_minutes"@]);
    let e4 = inherit_refresh(e3, "qoder_auto_refresh_minutes"@, seq!["gemini_auto_refresh_minutes"@, "cursor_auto_refresh_minutes"@, "kiro_auto_refresh_minutes"@]);
    let e5 = inherit_refresh(e4, "codebuddy_cn_auto_refresh_minutes"@, seq!["codebuddy_auto_refresh_minutes"@, "gemini_auto_refresh_minutes"@]);
    let e6 = inherit_refresh(e5, "trae_auto_refresh_minutes"@, seq!["qoder_auto_refresh_minutes"@, "gemini_auto_refresh_minutes"@]);
    let e7 = with_default(e6, "hide_dock_icon"@, ValueView::Bool(hides_dock(e6)));
    let enabled = match lookup_key(e7, "quota_alert_enabled"@) {
        Some(ValueView::Bool(b)) => b,
        _ => false,
    };
    let threshold = inherited_int(e7, seq!["quota_alert_threshold"@], 20);
    lemma_alert_defaults_grow(e7, 0, enabled, threshold);
}

fn config_value_exec(j: &JsonValue) -> (r: ConfigValue)
    ensures
        value_view(r) == config_value_of(json_view(*j)),
{
    match j {
        JsonValue::Number(JsonNumber::PosInt(u)) => if *u <= i64::MAX as u64 {
            ConfigValue::Int(*u as i64)
        } else {
            ConfigValue::Other
        },
        JsonValue::Number(JsonNumber::NegInt(i)) => ConfigValue::Int(*i),
        JsonValue::Bool(b) => ConfigValue::Bool(*b),
        JsonValue::String(t) => ConfigValue::Str(copy_string(t)),
        _ => ConfigValue::Other,
    }
}

fn value_json_exec(v: &ConfigValue) -> (r: JsonValue)
    ensures
        json_view(r) == value_json(value_view(*v)),
{
    match v {
        ConfigValue::Int(i) => i64_value(*i),
        ConfigValue::Bool(b) => JsonValue::Bool(*b),
        ConfigValue::Str(t) => JsonValue::String(copy_string(t)),
        ConfigValue::Other => JsonValue::Null,
    }
}

/// Reads a config file's text and fills the keys that older versions lacked,
/// as `migrated_entries` says; the result is what the file's settings are
/// then read from.
pub fn migrate_user_config_text(content: &str) -> (r: Result<JsonValue, String>)
    ensures
        json_from_text(content@) is None ==> (r matches Err(m) && exists|e: Seq<char>|
            m@ == "解析配置文件失败: "@ + e),
        json_from_text(content@) matches Some(v) ==> (r matches Ok(o) && json_view(o) == migrated_config_json(v)),
{
    let value = match parse_json_text_or_error(content) {
        Ok(v) => v,
        Err(e) => {
            let m = concat_str("解析配置文件失败: ", e.as_str());
            assert(m@ == "解析配置文件失败: "@ + e@);
            return Err(m);
        },
    };
    let ghost parsed = value;
    match value {
        JsonValue::Object(mut entries) => {
            let ghost members = entries_view(entries@);
            proof {
                lemma_entries_view(entries@);
            }
            let n: usize = entries.len();
            let mut config: Vec<ConfigEntry> = Vec::new();
            let mut i: usize = 0;
            while i < n
                invariant
                    n == entries@.len(),
                    members == entries_view(entries@),
                    members.len() == n,
                    forall|k: int| 0 <= k < n ==> #[trigger] members[k] == (entries@[k].0@, json_view(entries@[k].1)),
                    i <= n,
                    entry_views(config@) == config_members(members.take(i as int)),
                decreases n - i,
            {
                let c = ConfigEntry { key: copy_string(&entries[i].0), value: config_value_exec(&entries[i].1) };
                let ghost before = config@;
                config.push(c);
                proof {
                    assert(members[i as int] == (entries@[i as int].0@, json_view(entries@[i as int].1)));
                    assert(members.take(i + 1) =~= members.take(i as int).push(members[i as int]));
                    assert(entry_views(config@) =~= entry_views(before).push((c.key@, value_view(c.value))));
                    assert(config_members(members.take(i + 1)) =~= config_members(members.take(i as int)).push(
                        (members[i as int].0, config_value_of(members[i as int].1)),
                    ));
                }
                i = i + 1;
            }
            proof {
                assert(members.take(n as int) =~= members);
            }
            let ghost cv = config_members(members);
            migrate_legacy_config(&mut config);
            let ghost m = migrated_entries(cv);
            proof {
                lemma_migrated_grows(cv);
            }
            let total: usize = config.len();
            let ghost added = m.skip(n as int).map_values(|e: (Seq<char>, ValueView)| (e.0, value_json(e.1)));
            let mut j: usize = n;
            proof {
                assert(added.take(0) =~= Seq::<(Seq<char>, JsonView)>::empty());
                assert(members + added.take(0) =~= members);
            }
            while j < total
                invariant
                    n <= j <= total,
                    total == config@.len(),
                    entry_views(config@) == m,
                    m.len() >= n,
                    added == m.skip(n as int).map_values(|e: (Seq<char>, ValueView)| (e.0, value_json(e.1))),
                    entries_view(entries@) == members + added.take(j - n),
                decreases total - j,
            {
                let ghost before = entries@;
                let key = copy_string(&config[j].key);
                let v = value_json_exec(&config[j].value);
                push_entry(&mut entries, key.as_str(), v);
                proof {
                    assert(m[j as int] == (config@[j as int].key@, value_view(config@[j as int].value)));
                    assert(added[j - n] == (m[j as int].0, value_json(m[j as int].1)));
                    assert(added.take(j - n + 1) =~= added.take(j - n).push(added[j - n]));
                    assert(members + added.take(j - n + 1) =~= (members + added.take(j - n)).push(added[j - n]));
                }
                j = j + 1;
            }
            proof {
                assert(added.take(total - n) =~= added);
            }
            Ok(JsonValue::Object(entries))
        },
        other => Ok(other),
    }
}

} // verus!
