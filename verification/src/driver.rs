//! The container-state driver: the decision core of `ensure_running` and
//! of teardown.  Inspecting, starting and stopping containers is daemon
//! I/O and happens outside the library; what is verified here is which
//! call each observed state demands, when the wait loop may stop, and how
//! removal outcomes are judged.

use vstd::prelude::*;
use vstd::string::StringExecFns;

use crate::errors::SentinelError;

verus! {

/// A container state as the daemon reports it.  `Empty` stands for a
/// container the daemon does not know; `Other` for any state outside the
/// named ones.
#[derive(PartialEq, Eq, Structural, Clone, Copy, Debug)]
pub enum ContainerStatus {
    Running,
    Created,
    Exited,
    Paused,
    Restarting,
    Dead,
    Removing,
    Empty,
    Other,
}

/// The one daemon call a wake may issue before waiting.
#[derive(PartialEq, Eq, Structural, Clone, Copy, Debug)]
pub enum WakeCall {
    /// No call: the container is already running, or already on its way.
    NoCall,
    /// Start the container.
    Start,
    /// Unpause the container.
    Unpause,
}

/// What the wake path must do for an observed container state.
#[derive(PartialEq, Eq, Structural, Clone, Copy, Debug)]
pub struct WakePlan {
    /// The daemon call to issue, if any.
    pub call: WakeCall,
    /// Whether the caller must poll until the container reports running.
    pub must_wait: bool,
    /// Whether this request observes cold-start latency: true exactly
    /// when the container was not already running.
    pub coldstarted: bool,
}

/// What `ensure_running` hands back to the coordinator.
pub struct ContainerRunResult {
    /// True iff the request had to drive the container towards running.
    pub coldstarted: bool,
}

/// The wake table: the plan for each state that can be driven to
/// running, `None` for the states that cannot.
pub open spec fn spec_wake_plan(status: ContainerStatus) -> Option<WakePlan> {
    match status {
        ContainerStatus::Running => Option::Some(
            WakePlan { call: WakeCall::NoCall, must_wait: false, coldstarted: false },
        ),
        ContainerStatus::Created => Option::Some(
            WakePlan { call: WakeCall::Start, must_wait: true, coldstarted: true },
        ),
        ContainerStatus::Exited => Option::Some(
            WakePlan { call: WakeCall::Start, must_wait: true, coldstarted: true },
        ),
        ContainerStatus::Paused => Option::Some(
            WakePlan { call: WakeCall::Unpause, must_wait: true, coldstarted: true },
        ),
        ContainerStatus::Restarting => Option::Some(
            WakePlan { call: WakeCall::NoCall, must_wait: true, coldstarted: true },
        ),
        _ => Option::None,
    }
}

/// How many daemon start/unpause calls the attempt on `status` issues.
pub open spec fn spec_wake_calls(status: ContainerStatus) -> int {
    match spec_wake_plan(status) {
        Option::Some(p) => if p.call is NoCall {
            0
        } else {
            1
        },
        Option::None => 0,
    }
}

/// Decides what a wake attempt does for the observed `status` of
/// `container_name`: running is the warm path, a startable or paused or
/// restarting container is driven and waited for, a dead or unknown or
/// absent one fails.
pub fn plan_wake(status: ContainerStatus, container_name: &str) -> (r: Result<
    WakePlan,
    SentinelError,
>)
    ensures
        r matches Ok(p) ==> spec_wake_plan(status) == Option::Some(p),
        r is Ok <==> spec_wake_plan(status) is Some,
        r matches Err(e) ==> if status is Empty {
            e is NotFound
        } else {
            e is Unrecoverable
        },
{
    match status {
        ContainerStatus::Running => Ok(
            WakePlan { call: WakeCall::NoCall, must_wait: false, coldstarted: false },
        ),
        ContainerStatus::Created => Ok(
            WakePlan { call: WakeCall::Start, must_wait: true, coldstarted: true },
        ),
        ContainerStatus::Exited => Ok(
            WakePlan { call: WakeCall::Start, must_wait: true, coldstarted: true },
        ),
        ContainerStatus::Paused => Ok(
            WakePlan { call: WakeCall::Unpause, must_wait: true, coldstarted: true },
        ),
        ContainerStatus::Restarting => Ok(
            WakePlan { call: WakeCall::NoCall, must_wait: true, coldstarted: true },
        ),
        ContainerStatus::Empty => Err(SentinelError::NotFound(container_name.to_owned())),
        _ => {
            let mut msg = String::new();
            msg.append("container ");
            msg.append(container_name);
            msg.append(" is in a state that cannot be driven to running");
            Err(SentinelError::Unrecoverable(msg))
        },
    }
}

/// The total number of start/unpause calls a serialized run of wake
/// attempts issues.
pub open spec fn spec_total_wake_calls(statuses: Seq<ContainerStatus>) -> int
    decreases statuses.len(),
{
    if statuses.len() == 0 {
        0
    } else {
        spec_wake_calls(statuses[0]) + spec_total_wake_calls(statuses.drop_first())
    }
}

/// Single-flight wake: concurrent requests to one function serialize
/// behind its mutex, so their wake attempts form a sequence of observed
/// states.  Once the first attempt has brought the container to running,
/// every later attempt observes `Running`; under that premise the whole
/// run issues at most one start or unpause call, and none at all if the
/// container was running from the outset.
pub proof fn lemma_single_flight_wake(statuses: Seq<ContainerStatus>)
    requires
        statuses.len() > 0,
        forall|i: int| 1 <= i < statuses.len() ==> statuses[i] is Running,
    ensures
        spec_total_wake_calls(statuses) <= 1,
        statuses[0] is Running ==> spec_total_wake_calls(statuses) == 0,
    decreases statuses.len(),
{
    lemma_running_tail_no_calls(statuses.drop_first());
    assert(spec_wake_calls(statuses[0]) <= 1);
}

proof fn lemma_running_tail_no_calls(statuses: Seq<ContainerStatus>)
    requires
        forall|i: int| 0 <= i < statuses.len() ==> statuses[i] is Running,
    ensures
        spec_total_wake_calls(statuses) == 0,
    decreases statuses.len(),
{
    if statuses.len() > 0 {
        lemma_running_tail_no_calls(statuses.drop_first());
    }
}

/// The budget of the wait-until-running poll loop.
pub struct PollConfig {
    /// Total budget in milliseconds before the wake fails.
    pub timeout_ms: u64,
    /// Pause between two inspections, in milliseconds.
    pub interval_ms: u64,
}

impl Default for PollConfig {
    /// Thirty seconds of budget, inspecting every half second.
    fn default() -> (c: Self)
        ensures
            c.timeout_ms == 30000,
            c.interval_ms == 500,
    {
        PollConfig { timeout_ms: 30000, interval_ms: 500 }
    }
}

/// What the wait loop does after one more inspection.
#[derive(PartialEq, Eq, Structural, Clone, Copy, Debug)]
pub enum PollVerdict {
    /// The container reports running: the wake may proceed.
    Ready,
    /// Keep waiting: sleep one interval and inspect again.
    Wait,
    /// The budget is spent: the wake fails with a startup timeout.
    TimedOut,
}

/// One decision of the wait-until-running loop, from the newly observed
/// state and the time spent so far.
pub fn poll_step(status: ContainerStatus, elapsed_ms: u64, cfg: &PollConfig) -> (v: PollVerdict)
    ensures
        v is Ready <==> status is Running,
        v is TimedOut <==> !(status is Running) && elapsed_ms >= cfg.timeout_ms,
        v is Wait <==> !(status is Running) && elapsed_ms < cfg.timeout_ms,
{
    if let ContainerStatus::Running = status {
        PollVerdict::Ready
    } else if elapsed_ms >= cfg.timeout_ms {
        PollVerdict::TimedOut
    } else {
        PollVerdict::Wait
    }
}

/// The outcome of one daemon removal call, as observed by the caller.
pub enum RemoveOutcome {
    /// The daemon removed the container or network.
    Removed,
    /// The daemon answered with an error; `status_code` carries the HTTP
    /// status when the daemon sent one.
    Failed { status_code: Option<u16>, message: String },
}

/// A removal outcome counts as success when the daemon removed the
/// object, or answered 404: the object was already gone.
pub open spec fn spec_remove_ok(o: RemoveOutcome) -> bool {
    match o {
        RemoveOutcome::Removed => true,
        RemoveOutcome::Failed { status_code, .. } => status_code == Option::Some(404u16),
    }
}

/// Judges one removal outcome: a 404 is swallowed, every other daemon
/// failure surfaces.
pub fn interpret_remove(outcome: &RemoveOutcome) -> (r: Result<(), SentinelError>)
    ensures
        r is Ok <==> spec_remove_ok(*outcome),
        r matches Err(e) ==> e is DaemonError,
{
    match outcome {
        RemoveOutcome::Removed => Ok(()),
        RemoveOutcome::Failed { status_code: Some(code), message } => {
            if *code == 404 {
                Ok(())
            } else {
                Err(SentinelError::DaemonError(message.clone()))
            }
        },
        RemoveOutcome::Failed { status_code: None, message } => {
            Err(SentinelError::DaemonError(message.clone()))
        },
    }
}

/// A whole teardown pass succeeds exactly when every removal outcome
/// counts as success.
pub open spec fn spec_teardown_ok(outcomes: Seq<RemoveOutcome>) -> bool {
    forall|i: int| 0 <= i < outcomes.len() ==> spec_remove_ok(#[trigger] outcomes[i])
}

/// Judges a whole teardown pass from its removal outcomes.
pub fn teardown_outcome(outcomes: &Vec<RemoveOutcome>) -> (r: Result<(), SentinelError>)
    ensures
        r is Ok <==> spec_teardown_ok(outcomes@),
        r matches Err(e) ==> e is DaemonError,
{
    let mut idx: usize = 0;
    while idx < outcomes.len()
        invariant
            0 <= idx <= outcomes@.len(),
            forall|i: int| 0 <= i < idx ==> spec_remove_ok(#[trigger] outcomes@[i]),
        decreases outcomes@.len() - idx,
    {
        match interpret_remove(&outcomes[idx]) {
            Ok(()) => {},
            Err(e) => {
                return Err(e);
            },
        }
        idx = idx + 1;
    }
    Ok(())
}

/// Idempotent teardown: tearing down a stack that is already fully gone
/// — every removal answers 404 — succeeds.
pub proof fn lemma_teardown_idempotent(outcomes: Seq<RemoveOutcome>)
    requires
        forall|i: int|
            0 <= i < outcomes.len() ==> (#[trigger] outcomes[i] matches RemoveOutcome::Failed {
                status_code,
                ..
            } && status_code == Option::Some(404u16)),
    ensures
        spec_teardown_ok(outcomes),
{
}

} // verus!
