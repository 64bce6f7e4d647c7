//! Keeping the sidecar service in step with the settings: what a check of the
//! running process means for the recorded status, whether the service must
//! stop, stay or be (re)started, and what a start or a failure records.
//! Spawning, waiting and killing the process belong to the caller.
use vstd::prelude::*;
use crate::collection::CodexLocalAccessCollection;
use crate::sidecar::{bind_host, bind_host_for_collection};
use crate::text::{lit, concat_str, copy_string, str_eq, opt_string_text};

verus! {

broadcast use vstd::string::group_string_axioms;

/// What is recorded of the running service.
pub struct GatewayStatus {
    pub running: bool,
    pub actual_port: Option<u16>,
    pub actual_bind_host: Option<String>,
    pub last_error: Option<String>,
}

/// The status by its plain values.
pub open spec fn status_view(s: GatewayStatus) -> (bool, Option<u16>, Option<Seq<char>>, Option<Seq<char>>) {
    (s.running, s.actual_port, opt_string_text(s.actual_bind_host), opt_string_text(s.last_error))
}

/// What checking the sidecar process found.
pub enum SidecarProbe {
    /// No process is held.
    NoProcess,
    /// The process is still running.
    Alive,
    /// The process has exited, with this exit status text.
    Exited(String),
    /// The check itself failed, with this error text.
    CheckFailed(String),
}

/// A stopped status with an error.
pub open spec fn failed_status(message: Seq<char>) -> (bool, Option<u16>, Option<Seq<char>>, Option<Seq<char>>) {
    (false, None, None, Some(message))
}

/// The status after checking the process: a running service whose process
/// has exited, or whose check failed, is recorded as stopped with the reason.
pub open spec fn probed_status(
    s: (bool, Option<u16>, Option<Seq<char>>, Option<Seq<char>>),
    probe: SidecarProbe,
) -> (bool, Option<u16>, Option<Seq<char>>, Option<Seq<char>>) {
    if !s.0 {
        s
    } else {
        match probe {
            SidecarProbe::Exited(status) => failed_status("API 服务 sidecar 已退出: "@ + status@),
            SidecarProbe::CheckFailed(error) => failed_status("检查 API 服务 sidecar 状态失败: "@ + error@),
            _ => s,
        }
    }
}

/// Records a failure: the service is stopped with the message as its error.
pub fn record_gateway_failure(status: &mut GatewayStatus, message: &str)
    ensures
        status_view(*final(status)) == failed_status(message@),
{
    status.running = false;
    status.actual_port = None;
    status.actual_bind_host = None;
    status.last_error = Some(lit(message));
}

/// Applies what checking the process found to the status.
pub fn apply_sidecar_probe(status: &mut GatewayStatus, probe: &SidecarProbe)
    ensures
        status_view(*final(status)) == probed_status(status_view(*old(status)), *probe),
{
    if !status.running {
        return;
    }
    match probe {
        SidecarProbe::Exited(s) => {
            let message = concat_str("API 服务 sidecar 已退出: ", s.as_str());
            record_gateway_failure(status, message.as_str());
        },
        SidecarProbe::CheckFailed(e) => {
            let message = concat_str("检查 API 服务 sidecar 状态失败: ", e.as_str());
            record_gateway_failure(status, message.as_str());
        },
        _ => {},
    }
}

/// What the service must do to match the settings.
pub enum GatewayAction {
    /// Stop the service: there are no settings or the service is disabled.
    Stop,
    /// Nothing: it runs on the configured address.
    Keep,
    /// Stop what runs, then start on this port and address.
    Start { port: u16, bind_host: String },
}

/// The action by its plain values.
pub enum GatewayActionView {
    Stop,
    Keep,
    Start(u16, Seq<char>),
}

/// An action's plain values.
pub open spec fn action_view(a: GatewayAction) -> GatewayActionView {
    match a {
        GatewayAction::Stop => GatewayActionView::Stop,
        GatewayAction::Keep => GatewayActionView::Keep,
        GatewayAction::Start { port, bind_host } => GatewayActionView::Start(port, bind_host@),
    }
}

/// What the service must do: stop without settings or when disabled; keep
/// running where it runs on the configured port and address; else start
/// there.
pub open spec fn reconcile(
    s: (bool, Option<u16>, Option<Seq<char>>, Option<Seq<char>>),
    collection: Option<CodexLocalAccessCollection>,
) -> GatewayActionView {
    match collection {
        None => GatewayActionView::Stop,
        Some(c) => if !c.enabled {
            GatewayActionView::Stop
        } else if s.0 && s.1 == Some(c.port) && s.2 == Some(bind_host(c.access_scope)) {
            GatewayActionView::Keep
        } else {
            GatewayActionView::Start(c.port, bind_host(c.access_scope))
        },
    }
}

/// What the service must do to match the settings, from its status after
/// the check of its process.
pub fn gateway_reconcile_action(status: &GatewayStatus, collection: &Option<CodexLocalAccessCollection>) -> (r:
    GatewayAction)
    ensures
        action_view(r) == reconcile(status_view(*status), *collection),
{
    let c = match collection {
        None => return GatewayAction::Stop,
        Some(c) => c,
    };
    if !c.enabled {
        return GatewayAction::Stop;
    }
    let host = bind_host_for_collection(c);
    let same_host = match &status.actual_bind_host {
        Some(h) => str_eq(h.as_str(), host.as_str()),
        None => false,
    };
    let same_port = match status.actual_port {
        Some(p) => p == c.port,
        None => false,
    };
    if status.running && same_port && same_host {
        GatewayAction::Keep
    } else {
        GatewayAction::Start { port: c.port, bind_host: host }
    }
}

/// Records a started service: running on the port and address, without an
/// error.
pub fn record_gateway_started(status: &mut GatewayStatus, port: u16, bind_host: &str)
    ensures
        status_view(*final(status)) == (true, Some(port), Some(bind_host@), None::<Seq<char>>),
{
    status.running = true;
    status.actual_port = Some(port);
    status.actual_bind_host = Some(lit(bind_host));
    status.last_error = None;
}

/// The address a running service listens on, where it has one: what a stop
/// waits to be released.
pub fn gateway_bind_endpoint(status: &GatewayStatus) -> (r: Option<(String, u16)>)
    ensures
        match r {
            Some((h, p)) => status.actual_port == Some(p) && opt_string_text(status.actual_bind_host)
                == Some(h@),
            None => status.actual_port is None || status.actual_bind_host is None,
        },
{
    match (&status.actual_bind_host, status.actual_port) {
        (Some(h), Some(p)) => Some((copy_string(h), p)),
        _ => None,
    }
}

/// Checking, then deciding: a service whose process is gone is never kept.
pub proof fn lemma_exited_service_restarts(
    s: (bool, Option<u16>, Option<Seq<char>>, Option<Seq<char>>),
    probe: SidecarProbe,
    collection: Option<CodexLocalAccessCollection>,
)
    requires
        probe is Exited || probe is CheckFailed,
    ensures
        reconcile(probed_status(s, probe), collection) != GatewayActionView::Keep,
{
}

} // verus!
