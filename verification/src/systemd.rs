//! The systemd unit that runs the server: validation, rendering, and the
//! steps that install it.
use vstd::prelude::*;

use crate::dup::Dup;
use crate::text::{concat2, is_blank, join_path, owned, path_join, str_eq, trim};

verus! {

/// Settings of the systemd service that runs the server.
#[derive(Debug, Clone, PartialEq, Eq)]
pub struct ServiceUnitConfig {
    pub service_name: String,
    pub user: String,
    pub working_directory: String,
    pub binary_path: String,
    pub config_path: String,
    pub log_level: String,
}

/// Why a unit could not be rendered or installed.
#[derive(Debug, Clone, PartialEq, Eq)]
pub enum SystemdError {
    EmptyServiceName,
    RelativeWorkingDirectory(String),
    RelativeBinaryPath(String),
    RelativeConfigPath(String),
    /// Enabling or starting needs the unit at its default path, given here.
    NonDefaultUnitPath(String),
}

/// `SystemdError` with its paths as char sequences.
pub enum SystemdErrorView {
    EmptyServiceName,
    RelativeWorkingDirectory(Seq<char>),
    RelativeBinaryPath(Seq<char>),
    RelativeConfigPath(Seq<char>),
    NonDefaultUnitPath(Seq<char>),
}

impl DeepView for SystemdError {
    type V = SystemdErrorView;

    open spec fn deep_view(&self) -> SystemdErrorView {
        match self {
            SystemdError::EmptyServiceName => SystemdErrorView::EmptyServiceName,
            SystemdError::RelativeWorkingDirectory(p) => SystemdErrorView::RelativeWorkingDirectory(
                p@,
            ),
            SystemdError::RelativeBinaryPath(p) => SystemdErrorView::RelativeBinaryPath(p@),
            SystemdError::RelativeConfigPath(p) => SystemdErrorView::RelativeConfigPath(p@),
            SystemdError::NonDefaultUnitPath(p) => SystemdErrorView::NonDefaultUnitPath(p@),
        }
    }
}

/// A Unix path is absolute when it starts with '/'.
pub open spec fn is_absolute_path(p: Seq<char>) -> bool {
    p.len() > 0 && p[0] == '/'
}

/// Directory that holds system units.
pub open spec fn unit_dir() -> Seq<char> {
    "/etc/systemd/system"@
}

/// Where the unit of a service lives by default.
pub open spec fn default_unit_path(service_name: Seq<char>) -> Seq<char> {
    path_join(unit_dir(), service_name + ".service"@)
}

/// The first failed check of a unit configuration, if any.
pub open spec fn config_problem(c: ServiceUnitConfig) -> Option<SystemdErrorView> {
    if trim(c.service_name@).len() == 0 {
        Some(SystemdErrorView::EmptyServiceName)
    } else if !is_absolute_path(c.working_directory@) {
        Some(SystemdErrorView::RelativeWorkingDirectory(c.working_directory@))
    } else if !is_absolute_path(c.binary_path@) {
        Some(SystemdErrorView::RelativeBinaryPath(c.binary_path@))
    } else if !is_absolute_path(c.config_path@) {
        Some(SystemdErrorView::RelativeConfigPath(c.config_path@))
    } else {
        None
    }
}

/// Text of the unit file for a valid configuration.
pub open spec fn unit_text(c: ServiceUnitConfig) -> Seq<char> {
    "[Unit]\nDescription=containr paas\nAfter=network.target docker.service\nRequires=docker.service\n\n[Service]\nType=simple\nUser="@
        + c.user@ + "\nWorkingDirectory="@ + c.working_directory@ + "\nExecStart="@
        + c.binary_path@ + " server --config "@ + c.config_path@ + " --log-level "@
        + c.log_level@
        + "\nRestart=always\nRestartSec=5\n\n[Install]\nWantedBy=multi-user.target\n"@
}

fn is_absolute(p: &str) -> (r: bool)
    ensures
        r == is_absolute_path(p@),
{
    p.unicode_len() > 0 && p.get_char(0) == '/'
}

impl SystemdError {
    /// Human-readable description of the error.
    pub fn message(&self) -> (r: String)
        ensures
            r@ == match self {
                SystemdError::EmptyServiceName => "service name cannot be empty"@,
                SystemdError::RelativeWorkingDirectory(p) => "working directory must be absolute: "@
                    + p@,
                SystemdError::RelativeBinaryPath(p) => "binary path must be absolute: "@ + p@,
                SystemdError::RelativeConfigPath(p) => "config path must be absolute: "@ + p@,
                SystemdError::NonDefaultUnitPath(p) =>
                    "enable/start requires the default systemd unit path "@ + p@,
            },
    {
        match self {
            SystemdError::EmptyServiceName => owned("service name cannot be empty"),
            SystemdError::RelativeWorkingDirectory(p) => concat2(
                "working directory must be absolute: ",
                p.as_str(),
            ),
            SystemdError::RelativeBinaryPath(p) => concat2(
                "binary path must be absolute: ",
                p.as_str(),
            ),
            SystemdError::RelativeConfigPath(p) => concat2(
                "config path must be absolute: ",
                p.as_str(),
            ),
            SystemdError::NonDefaultUnitPath(p) => concat2(
                "enable/start requires the default systemd unit path ",
                p.as_str(),
            ),
        }
    }
}

impl ServiceUnitConfig {
    /// `/etc/systemd/system/<service_name>.service`.
    pub fn default_output_path(&self) -> (r: String)
        ensures
            r@ == default_unit_path(self.service_name@),
    {
        let file = concat2(self.service_name.as_str(), ".service");
        join_path("/etc/systemd/system", file.as_str())
    }
}

/// Checks that the service has a name and that its paths are absolute.
pub fn validate_service_config(config: &ServiceUnitConfig) -> (r: Result<(), SystemdError>)
    ensures
        match config_problem(*config) {
            Some(e) => r matches Err(x) && x.deep_view() == e,
            None => r is Ok,
        },
{
    if is_blank(config.service_name.as_str()) {
        return Err(SystemdError::EmptyServiceName);
    }
    if !is_absolute(config.working_directory.as_str()) {
        return Err(SystemdError::RelativeWorkingDirectory(config.working_directory.dup()));
    }
    if !is_absolute(config.binary_path.as_str()) {
        return Err(SystemdError::RelativeBinaryPath(config.binary_path.dup()));
    }
    if !is_absolute(config.config_path.as_str()) {
        return Err(SystemdError::RelativeConfigPath(config.config_path.dup()));
    }
    Ok(())
}

/// The unit file for `config`, or the first problem with it.
pub fn render_service_unit(config: &ServiceUnitConfig) -> (r: Result<String, SystemdError>)
    ensures
        match config_problem(*config) {
            Some(e) => r matches Err(x) && x.deep_view() == e,
            None => r matches Ok(text) && text@ == unit_text(*config),
        },
{
    validate_service_config(config)?;
    let mut out = owned(
        "[Unit]\nDescription=containr paas\nAfter=network.target docker.service\nRequires=docker.service\n\n[Service]\nType=simple\nUser=",
    );
    out.append(config.user.as_str());
    out.append("\nWorkingDirectory=");
    out.append(config.working_directory.as_str());
    out.append("\nExecStart=");
    out.append(config.binary_path.as_str());
    out.append(" server --config ");
    out.append(config.config_path.as_str());
    out.append(" --log-level ");
    out.append(config.log_level.as_str());
    out.append("\nRestart=always\nRestartSec=5\n\n[Install]\nWantedBy=multi-user.target\n");
    Ok(out)
}

/// The unit path an installation writes to: the given one, else the default.
pub fn resolve_output_path(config: &ServiceUnitConfig, output_path: Option<&str>) -> (r: String)
    ensures
        r@ == match output_path {
            Some(p) => p@,
            None => default_unit_path(config.service_name@),
        },
{
    match output_path {
        Some(p) => owned(p),
        None => config.default_output_path(),
    }
}

/// Whether two paths are equal as `std::path::Path` compares them: by
/// their components, so that repeated separators and `.` components in the
/// middle make no difference.
pub uninterp spec fn same_path(a: Seq<char>, b: Seq<char>) -> bool;

/// `Path::new(a) == Path::new(b)`. The result is named; the contract adds
/// only that a path equals itself.
#[verifier::external_body]
fn paths_equal(a: &str, b: &str) -> (r: bool)
    ensures
        r == same_path(a@, b@),
        a@ == b@ ==> r,
{
    std::path::Path::new(a) == std::path::Path::new(b)
}

/// The `systemctl` argument lists to run after the unit was written to
/// `written_path`.
pub open spec fn systemctl_plan(service_name: Seq<char>, enable: bool, start: bool) -> Seq<
    Seq<Seq<char>>,
> {
    if !enable && !start {
        Seq::empty()
    } else {
        seq![seq!["daemon-reload"@]] + (if enable {
            seq![seq!["enable"@, service_name]]
        } else {
            Seq::empty()
        }) + (if start {
            seq![seq!["restart"@, service_name]]
        } else {
            Seq::empty()
        })
    }
}

/// The `systemctl` calls that follow writing the unit to `written_path`:
/// none unless enabling or starting; those need the default unit path.
pub fn systemctl_steps(
    config: &ServiceUnitConfig,
    written_path: &str,
    enable: bool,
    start: bool,
) -> (r: Result<Vec<Vec<String>>, SystemdError>)
    ensures
        (enable || start) && !same_path(written_path@, default_unit_path(config.service_name@)) ==> (r
            matches Err(e) && e.deep_view() == SystemdErrorView::NonDefaultUnitPath(
            default_unit_path(config.service_name@),
        )),
        !((enable || start) && !same_path(written_path@, default_unit_path(config.service_name@))) ==> (r
            matches Ok(steps) && steps.deep_view() == systemctl_plan(
            config.service_name@,
            enable,
            start,
        )),
{
    let mut steps: Vec<Vec<String>> = Vec::new();
    if !enable && !start {
        assert(steps.deep_view() =~= systemctl_plan(config.service_name@, enable, start));
        return Ok(steps);
    }
    let default_path = config.default_output_path();
    if !paths_equal(written_path, default_path.as_str()) {
        return Err(SystemdError::NonDefaultUnitPath(default_path));
    }
    let mut reload: Vec<String> = Vec::new();
    reload.push(owned("daemon-reload"));
    steps.push(reload);
    if enable {
        let mut step: Vec<String> = Vec::new();
        step.push(owned("enable"));
        step.push(config.service_name.dup());
        steps.push(step);
    }
    if start {
        let mut step: Vec<String> = Vec::new();
        step.push(owned("restart"));
        step.push(config.service_name.dup());
        steps.push(step);
    }
    proof {
        let plan = systemctl_plan(config.service_name@, enable, start);
        assert(steps.deep_view().len() == plan.len());
        assert forall|i: int| 0 <= i < plan.len() implies #[trigger] steps.deep_view()[i]
            =~= plan[i] by {}
        assert(steps.deep_view() =~= plan);
    }
    Ok(steps)
}

/// The error text for a failed `systemctl` call: its stderr when that has
/// any text, else its exit status.
pub fn systemctl_failure_message(args: &str, status: &str, stderr: &str) -> (r: String)
    ensures
        r@ == if trim(stderr@).len() == 0 {
            "systemctl "@ + args@ + " failed with status "@ + status@
        } else {
            "systemctl "@ + args@ + " failed: "@ + trim(stderr@)
        },
{
    let mut out = owned("systemctl ");
    out.append(args);
    if is_blank(stderr) {
        out.append(" failed with status ");
        out.append(status);
    } else {
        out.append(" failed: ");
        let t = crate::text::trim_owned(stderr);
        out.append(t.as_str());
    }
    out
}


/// What installing the unit does: write `unit` to `output_path`, then run
/// the `systemctl` steps, unless enabling or starting was asked for with a
/// unit path other than the default, which fails after the write.
pub struct InstallPlan {
    pub output_path: String,
    pub unit: String,
    pub systemctl: Result<Vec<Vec<String>>, SystemdError>,
}

/// Plans the installation of the unit; fails before anything is written
/// when the configuration is invalid.
pub fn install_service_unit(
    config: &ServiceUnitConfig,
    output_path: Option<&str>,
    enable: bool,
    start: bool,
) -> (r: Result<InstallPlan, SystemdError>)
    ensures
        match config_problem(*config) {
            Some(e) => r matches Err(x) && x.deep_view() == e,
            None => (r matches Ok(plan) && plan.unit@ == unit_text(*config) && plan.output_path@ == (
            match output_path {
                Some(p) => p@,
                None => default_unit_path(config.service_name@),
            }) && ((enable || start) && !same_path(plan.output_path@, default_unit_path(
                config.service_name@,
            )) ==> (plan.systemctl matches Err(e) && e.deep_view()
                == SystemdErrorView::NonDefaultUnitPath(default_unit_path(config.service_name@))))
                && (!((enable || start) && !same_path(plan.output_path@, default_unit_path(
                config.service_name@,
            ))) ==> (plan.systemctl matches Ok(steps) && steps.deep_view() == systemctl_plan(
                config.service_name@,
                enable,
                start,
            )))),
        },
{
    let unit = render_service_unit(config)?;
    let path = resolve_output_path(config, output_path);
    let systemctl = systemctl_steps(config, path.as_str(), enable, start);
    Ok(InstallPlan { output_path: path, unit, systemctl })
}

} // verus!
