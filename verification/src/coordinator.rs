//! The per-function wake coordinator's decisions.  The async mutex, the
//! daemon calls and the probe loop run outside the library; verified
//! here is what a wake computes before and after them: the lease it
//! bids, and the teardown of a session.

use vstd::prelude::*;
use vstd::string::StringExecFns;

use crate::config::{spec_find_function, Config, Function};
use crate::errors::SentinelError;
use crate::session::{Session, DEFAULT_SESSION_DURATION_SECS, NANOS_PER_SEC};
use crate::time::TIMESTAMP_MAX_NS;

verus! {

/// The lease length of one function in seconds: its declared session
/// duration, or the default.
pub open spec fn spec_session_duration_secs(f: Function) -> int {
    match f.scaling {
        Option::Some(sc) => match sc.session_duration {
            Option::Some(d) => d as int,
            Option::None => DEFAULT_SESSION_DURATION_SECS as int,
        },
        Option::None => DEFAULT_SESSION_DURATION_SECS as int,
    }
}

/// The lease length of one function in seconds.
pub fn session_duration_secs(f: &Function) -> (d: u64)
    ensures
        d == spec_session_duration_secs(*f),
{
    match &f.scaling {
        Some(sc) => match sc.session_duration {
            Some(d) => d,
            None => DEFAULT_SESSION_DURATION_SECS,
        },
        None => DEFAULT_SESSION_DURATION_SECS,
    }
}

/// The lease a wake of `function_name` bids at instant `now_ns`: the
/// instant plus the function's session duration.  Fails with the
/// not-found error exactly on an unknown function.
pub fn wake_candidate(config: &Config, function_name: &str, now_ns: i128) -> (r: Result<
    Session,
    SentinelError,
>)
    requires
        now_ns <= TIMESTAMP_MAX_NS,
    ensures
        r matches Ok(s) ==> (spec_find_function(config.functions@, function_name@) matches
        Option::Some(f) && s@.function_name == function_name@ && s@.ends_at == now_ns
            + spec_session_duration_secs(f) * NANOS_PER_SEC),
        r is Ok <==> spec_find_function(config.functions@, function_name@) is Some,
        r matches Err(e) ==> e is NotFound,
{
    let f = match config.get_function(function_name) {
        Some(f) => f,
        None => {
            return Err(SentinelError::NotFound(function_name.to_owned()));
        },
    };
    let duration = session_duration_secs(f);
    proof {
        assert(0 <= duration as int * (1_000_000_000int)
            <= 18_446_744_073_709_551_615_000_000_000int) by (nonlinear_arith)
            requires
                0 <= duration <= 0xFFFF_FFFF_FFFF_FFFFu64,
        ;
    }
    Ok(Session::new(function_name.to_owned(), duration, now_ns))
}

/// The container a session teardown stops: the function's container
/// name.  Fails exactly on an unknown function.
pub fn stop_plan(config: &Config, function_name: &str) -> (r: Result<String, SentinelError>)
    ensures
        r matches Ok(c) ==> spec_find_function(config.functions@, function_name@) is Some && c@
            == "coupe-"@ + config.name@ + "-function-"@ + function_name@,
        r is Ok <==> spec_find_function(config.functions@, function_name@) is Some,
        r matches Err(e) ==> e is InvalidInput,
{
    match config.get_function(function_name) {
        Some(_) => Ok(config.function_container_name(function_name)),
        None => {
            let mut msg = String::new();
            msg.append("function ");
            msg.append(function_name);
            msg.append(" not found");
            Err(SentinelError::InvalidInput(msg))
        },
    }
}

} // verus!
