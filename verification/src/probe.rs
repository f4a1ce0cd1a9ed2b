//! The health probe's decision rules.  The HTTP GET itself happens
//! outside the library; verified here is what counts as ready and when
//! the probe budget is spent.

use vstd::prelude::*;

verus! {

/// Total budget of one health probe, in milliseconds.
pub const HEALTH_TOTAL_TIMEOUT_MS: u64 = 15000;

/// Pause between two probe attempts, in milliseconds.
pub const HEALTH_RETRY_DELAY_MS: u64 = 200;

/// Budget of one probe attempt, in milliseconds.
pub const HEALTH_REQUEST_TIMEOUT_MS: u64 = 2000;

/// A function is ready exactly when its health endpoint answers with a
/// success status.
pub fn probe_success(status: u16) -> (b: bool)
    ensures
        b <==> 200 <= status < 300,
{
    200 <= status && status < 300
}

/// What the probe loop does after one attempt.
#[derive(PartialEq, Eq, Structural, Clone, Copy, Debug)]
pub enum ProbeVerdict {
    /// The endpoint answered with a success status: the wake proceeds.
    Ready,
    /// Not ready yet: sleep one retry delay and probe again.
    Retry,
    /// The budget is spent: the wake fails with a healthcheck timeout.
    TimedOut,
}

/// One decision of the probe loop.  `status` is the response status of
/// the attempt, or `None` when the attempt failed in transport or timed
/// out; `elapsed_ms` is the time spent since the probe began.
pub fn probe_step(status: Option<u16>, elapsed_ms: u64) -> (v: ProbeVerdict)
    ensures
        v is Ready <==> (status matches Some(s) && 200 <= s < 300),
        v is TimedOut <==> !(status matches Some(s) && 200 <= s < 300) && elapsed_ms
            >= HEALTH_TOTAL_TIMEOUT_MS,
        v is Retry <==> !(status matches Some(s) && 200 <= s < 300) && elapsed_ms
            < HEALTH_TOTAL_TIMEOUT_MS,
{
    let ok = match status {
        Some(s) => probe_success(s),
        None => false,
    };
    if ok {
        ProbeVerdict::Ready
    } else if elapsed_ms >= HEALTH_TOTAL_TIMEOUT_MS {
        ProbeVerdict::TimedOut
    } else {
        ProbeVerdict::Retry
    }
}

} // verus!
