//! Startup validation: which monitor-mode interface to capture on.
use vstd::prelude::*;

verus! {

/// Result of startup validation.
pub struct ValidationResult {
    /// The interface to capture on (may differ from the configured one).
    pub interface: String,
    /// `None` when GPS is disabled; otherwise whether it was reachable.
    pub gps_available: Option<bool>,
    pub gps_error: Option<String>,
}

/// Startup failures.
pub enum ValidationError {
    /// No interface in monitor mode could be found or made.
    NoMonitorInterface { configured_interface: String, cause: Option<String> },
    /// GPS is enabled but its server cannot be reached.
    GpsUnavailable { host: String, port: u16 },
}

/// An interface check that the caller runs on the system.
#[derive(Clone, Copy, Debug, PartialEq, Eq)]
pub enum MonitorCheck {
    /// Bring the configured interface down, set it to monitor, bring it up.
    SetMonitorMode,
    /// Ask whether the configured interface is in monitor mode.
    QueryMode,
    /// Look for any interface already in monitor mode.
    FindMonitorInterface,
}

/// What the checks run so far have shown.
pub struct MonitorFacts {
    /// Outcome of setting monitor mode, with the error text on failure.
    pub set_attempt: Option<Result<(), String>>,
    /// Whether the configured interface is in monitor mode (a failed query
    /// counts as no).
    pub configured_in_monitor: Option<bool>,
    /// The first interface found in monitor mode, if the search ran.
    pub found: Option<Option<String>>,
}

/// Next move of the resolution.
pub enum MonitorStep {
    Run(MonitorCheck),
    Resolved(String),
    Failed(ValidationError),
}

/// Decides the monitor interface from what the checks have shown. With
/// `set_monitor` the configured interface is reconfigured and used; without
/// it, it is used if already in monitor mode. Failing that, the first
/// interface found in monitor mode is used. Resolution fails only when no
/// monitor-mode interface is found (reporting why reconfiguration failed,
/// if it was tried).
pub fn resolve_monitor_interface(configured: &str, set_monitor: bool, facts: &MonitorFacts) -> (r: MonitorStep)
    ensures
        set_monitor ==> match facts.set_attempt {
            None => r == MonitorStep::Run(MonitorCheck::SetMonitorMode),
            Some(Ok(())) => r matches MonitorStep::Resolved(i) && i@ == configured@,
            Some(Err(e)) => match facts.found {
                None => r == MonitorStep::Run(MonitorCheck::FindMonitorInterface),
                Some(Some(f)) => r matches MonitorStep::Resolved(i) && i == f,
                Some(None) => r matches MonitorStep::Failed(ValidationError::NoMonitorInterface {
                    configured_interface,
                    cause,
                }) && configured_interface@ == configured@ && cause == Some(e),
            },
        },
        !set_monitor ==> match facts.configured_in_monitor {
            None => r == MonitorStep::Run(MonitorCheck::QueryMode),
            Some(true) => r matches MonitorStep::Resolved(i) && i@ == configured@,
            Some(false) => match facts.found {
                None => r == MonitorStep::Run(MonitorCheck::FindMonitorInterface),
                Some(Some(f)) => r matches MonitorStep::Resolved(i) && i == f,
                Some(None) => r matches MonitorStep::Failed(ValidationError::NoMonitorInterface {
                    configured_interface,
                    cause,
                }) && configured_interface@ == configured@ && cause is None,
            },
        },
{
    if set_monitor {
        return match &facts.set_attempt {
            None => MonitorStep::Run(MonitorCheck::SetMonitorMode),
            Some(Ok(())) => MonitorStep::Resolved(String::from_str(configured)),
            Some(Err(e)) => match &facts.found {
                None => MonitorStep::Run(MonitorCheck::FindMonitorInterface),
                Some(Some(f)) => MonitorStep::Resolved(f.clone()),
                Some(None) => MonitorStep::Failed(
                    ValidationError::NoMonitorInterface {
                        configured_interface: String::from_str(configured),
                        cause: Some(e.clone()),
                    },
                ),
            },
        };
    }
    match facts.configured_in_monitor {
        None => MonitorStep::Run(MonitorCheck::QueryMode),
        Some(true) => MonitorStep::Resolved(String::from_str(configured)),
        Some(false) => match &facts.found {
            None => MonitorStep::Run(MonitorCheck::FindMonitorInterface),
            Some(Some(f)) => MonitorStep::Resolved(f.clone()),
            Some(None) => MonitorStep::Failed(
                ValidationError::NoMonitorInterface {
                    configured_interface: String::from_str(configured),
                    cause: None,
                },
            ),
        },
    }
}

} // verus!
