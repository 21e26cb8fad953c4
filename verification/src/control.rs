//! Run and agent control.

use vstd::prelude::*;
use vstd::string::*;

verus! {

/// Explicit scheduling priority; larger values dispatch first. The runtime does not enforce it.
#[derive(Clone, Copy, Debug, PartialEq, Eq, PartialOrd, Ord, Structural)]
pub struct RunPriority(pub i32);

/// Monotonic logical order in which a run became eligible for work.
///
/// Live admissions use the runtime tick. Snapshot restoration rebases captured ordering around
/// the target clock, so negative values are valid.
#[derive(Clone, Copy, Debug, PartialEq, Eq, PartialOrd, Ord, Structural)]
pub struct ReadyAt(pub i128);

/// Explicit semantics for suspending a run.
///
/// The runtime keeps the control of a run and explains it, but does not suspend the run by itself:
/// that is left to an extension.
#[derive(Clone, Copy, Debug, PartialEq, Eq, Structural)]
pub enum PauseMode {
    /// Stop new dispatch, allow in-flight work to settle and commit to a safe boundary.
    Drain,
    /// Retain validated completions but defer policy evaluation and commit until resume.
    FreezeAfterIngress,
    /// Cancel in-flight effects and retain a redispatchable prepared checkpoint.
    CancelAndSuspend,
}

/// Authoritative run-local control orthogonal to the state of a run. It is kept and explained, and
/// not enforced by the runtime.
#[derive(Clone, Copy, Debug, PartialEq, Eq, Structural)]
pub enum RunControl {
    /// Normal progression is eligible.
    Running,
    /// A suspension transition is being reconciled.
    PauseRequested(PauseMode),
    /// Progression is suspended while ingress and maintenance remain active.
    Paused(PauseMode),
}

impl View for RunControl {
    type V = Self;

    open spec fn view(&self) -> Self {
        *self
    }
}

impl DeepView for RunControl {
    type V = Self;

    open spec fn deep_view(&self) -> Self {
        self.view()
    }
}

/// Admission and bulk-control policy for an agent definition. It is not enforced by the runtime.
#[derive(Clone, Copy, Debug, PartialEq, Eq, Structural)]
pub enum AgentControl {
    /// Admit new runs and leave existing runs unchanged.
    Running,
    /// Reject new runs while existing runs continue.
    RejectNewRuns,
    /// Reject new runs and request this pause mode for active runs.
    PauseExistingRuns(PauseMode),
}

/// Per-agent invalid-tool retry budget snapshotted onto each admitted run. It is not enforced by
/// the runtime.
#[derive(Clone, Copy, Debug, PartialEq, Eq, Structural)]
pub struct InvalidToolCallBudget {
    /// Maximum `Retry` resolutions before later invalid calls fail closed.
    pub max_retries: u32,
}

/// Per-agent structured-output retry budget snapshotted onto admitted runs. It is not enforced by
/// the runtime.
#[derive(Clone, Copy, Debug, PartialEq, Eq, Structural)]
pub struct StructuredOutputRetryBudget {
    /// Maximum corrective model retries after schema validation fails.
    pub max_retries: u32,
}

impl Default for RunPriority {
    fn default() -> (r: Self)
        ensures
            r == RunPriority(0),
    {
        RunPriority(0)
    }
}

impl Default for ReadyAt {
    fn default() -> (r: Self)
        ensures
            r == ReadyAt(0),
    {
        ReadyAt(0)
    }
}

impl Default for RunControl {
    fn default() -> (r: Self)
        ensures
            r == RunControl::Running,
    {
        RunControl::Running
    }
}

impl Default for AgentControl {
    fn default() -> (r: Self)
        ensures
            r == AgentControl::Running,
    {
        AgentControl::Running
    }
}

impl Default for InvalidToolCallBudget {
    fn default() -> (r: Self)
        ensures
            r.max_retries == 0,
    {
        InvalidToolCallBudget { max_retries: 0 }
    }
}

impl Default for StructuredOutputRetryBudget {
    fn default() -> (r: Self)
        ensures
            r.max_retries == 1,
    {
        StructuredOutputRetryBudget { max_retries: 1 }
    }
}

/// Name of a way to pause.
pub open spec fn pause_mode_text(mode: PauseMode) -> Seq<char> {
    match mode {
        PauseMode::Drain => "Drain"@,
        PauseMode::FreezeAfterIngress => "FreezeAfterIngress"@,
        PauseMode::CancelAndSuspend => "CancelAndSuspend"@,
    }
}

/// Description of a control.
pub open spec fn control_text(control: RunControl) -> Seq<char> {
    match control {
        RunControl::Running => "Running"@,
        RunControl::PauseRequested(mode) => "PauseRequested("@ + pause_mode_text(mode) + ")"@,
        RunControl::Paused(mode) => "Paused("@ + pause_mode_text(mode) + ")"@,
    }
}

impl PauseMode {
    /// Name of the way to pause.
    pub fn text(&self) -> (r: String)
        ensures
            r@ == pause_mode_text(*self),
    {
        match self {
            PauseMode::Drain => "Drain".to_owned(),
            PauseMode::FreezeAfterIngress => "FreezeAfterIngress".to_owned(),
            PauseMode::CancelAndSuspend => "CancelAndSuspend".to_owned(),
        }
    }
}

impl RunControl {
    /// Description of the control.
    pub fn text(&self) -> (r: String)
        ensures
            r@ == control_text(*self),
    {
        match self {
            RunControl::Running => "Running".to_owned(),
            RunControl::PauseRequested(mode) => {
                let mode = mode.text();
                let mut r = "PauseRequested(".to_owned();
                r.append(mode.as_str());
                r.append(")");
                r
            },
            RunControl::Paused(mode) => {
                let mode = mode.text();
                let mut r = "Paused(".to_owned();
                r.append(mode.as_str());
                r.append(")");
                r
            },
        }
    }
}

} // verus!
