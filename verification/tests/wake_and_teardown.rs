use coupe::config::{Config, Function, Scaling, Trigger};
use coupe::coordinator::{session_duration_secs, stop_plan, wake_candidate};
use coupe::driver::{
    interpret_remove, plan_wake, poll_step, teardown_outcome, ContainerStatus, PollConfig,
    PollVerdict, RemoveOutcome, WakeCall,
};
use coupe::probe::{probe_step, probe_success, ProbeVerdict};
use coupe::SentinelError;

const SEC: i128 = 1_000_000_000;

fn config_with_echo(duration: Option<u64>) -> Config {
    Config {
        name: String::from("demo"),
        version: None,
        description: None,
        sentinel: None,
        identity: None,
        brokers: Vec::new(),
        queues: Vec::new(),
        streams: Vec::new(),
        functions: vec![(
            String::from("echo"),
            Function {
                image: String::from("e:1"),
                trigger: Trigger::Http {
                    path: String::from("/echo"),
                    method: None,
                    auth: None,
                },
                scaling: Some(Scaling {
                    session_duration: duration,
                    health_check_interval: None,
                }),
                handler_port: None,
            },
        )],
    }
}

#[test]
fn wake_table_matches_the_state_machine() {
    // Warm path: no call, no wait, no cold start.
    let p = plan_wake(ContainerStatus::Running, "c").expect("running");
    assert_eq!(p.call, WakeCall::NoCall);
    assert!(!p.must_wait && !p.coldstarted);

    for status in [ContainerStatus::Created, ContainerStatus::Exited] {
        let p = plan_wake(status, "c").expect("startable");
        assert_eq!(p.call, WakeCall::Start);
        assert!(p.must_wait && p.coldstarted);
    }

    let p = plan_wake(ContainerStatus::Paused, "c").expect("paused");
    assert_eq!(p.call, WakeCall::Unpause);
    assert!(p.must_wait && p.coldstarted);

    let p = plan_wake(ContainerStatus::Restarting, "c").expect("restarting");
    assert_eq!(p.call, WakeCall::NoCall);
    assert!(p.must_wait && p.coldstarted);

    assert!(matches!(
        plan_wake(ContainerStatus::Empty, "c"),
        Err(SentinelError::NotFound(_))
    ));
    for status in [
        ContainerStatus::Dead,
        ContainerStatus::Removing,
        ContainerStatus::Other,
    ] {
        assert!(matches!(
            plan_wake(status, "c"),
            Err(SentinelError::Unrecoverable(_))
        ));
    }
}

#[test]
fn a_running_container_never_issues_a_start() {
    // The single-flight shape on values: the first of fifty serialized
    // attempts may start; the rest observe running and never do.
    let first = plan_wake(ContainerStatus::Exited, "c").expect("first");
    assert_eq!(first.call, WakeCall::Start);
    for _ in 0..49 {
        let later = plan_wake(ContainerStatus::Running, "c").expect("later");
        assert_eq!(later.call, WakeCall::NoCall);
    }
}

#[test]
fn poll_budget_is_thirty_seconds_of_half_second_steps() {
    let cfg = PollConfig::default();
    assert_eq!(cfg.timeout_ms, 30000);
    assert_eq!(cfg.interval_ms, 500);
    assert_eq!(poll_step(ContainerStatus::Running, 0, &cfg), PollVerdict::Ready);
    assert_eq!(poll_step(ContainerStatus::Created, 29999, &cfg), PollVerdict::Wait);
    assert_eq!(poll_step(ContainerStatus::Created, 30000, &cfg), PollVerdict::TimedOut);
    assert_eq!(poll_step(ContainerStatus::Running, 99999, &cfg), PollVerdict::Ready);
}

#[test]
fn probe_accepts_exactly_success_statuses() {
    assert!(probe_success(200));
    assert!(probe_success(204));
    assert!(probe_success(299));
    assert!(!probe_success(199));
    assert!(!probe_success(300));
    assert!(!probe_success(500));
}

#[test]
fn probe_retries_until_its_budget_is_spent() {
    assert_eq!(probe_step(Some(200), 0), ProbeVerdict::Ready);
    assert_eq!(probe_step(Some(500), 0), ProbeVerdict::Retry);
    assert_eq!(probe_step(None, 14999), ProbeVerdict::Retry);
    assert_eq!(probe_step(Some(500), 15000), ProbeVerdict::TimedOut);
    assert_eq!(probe_step(Some(200), 15000), ProbeVerdict::Ready);
    // A health probe timeout answers service-unavailable at the gateway.
    assert_eq!(
        SentinelError::HealthcheckTimeout(String::from("x")).wake_status(),
        503
    );
    assert_eq!(SentinelError::DaemonError(String::from("x")).wake_status(), 500);
}

#[test]
fn wake_candidate_bids_now_plus_the_session_duration() {
    let config = config_with_echo(Some(5));
    let now: i128 = 1_000 * SEC;
    let s = wake_candidate(&config, "echo", now).expect("known function");
    assert_eq!(s.function_name, "echo");
    assert_eq!(s.ends_at, now + 5 * SEC);
    assert!(matches!(
        wake_candidate(&config, "ghost", now),
        Err(SentinelError::NotFound(_))
    ));
}

#[test]
fn session_duration_defaults_to_thirty_seconds() {
    let with_default = config_with_echo(None);
    let f = &with_default.functions[0].1;
    assert_eq!(session_duration_secs(f), 30);
    let explicit = config_with_echo(Some(120));
    assert_eq!(session_duration_secs(&explicit.functions[0].1), 120);
}

#[test]
fn stop_plan_names_the_function_container() {
    let config = config_with_echo(None);
    let container = stop_plan(&config, "echo").expect("known");
    assert_eq!(container, "coupe-demo-function-echo");
    assert!(matches!(
        stop_plan(&config, "ghost"),
        Err(SentinelError::InvalidInput(_))
    ));
}

#[test]
fn teardown_swallows_404_and_surfaces_other_failures() {
    let gone = RemoveOutcome::Failed {
        status_code: Some(404),
        message: String::from("no such container"),
    };
    assert!(interpret_remove(&gone).is_ok());
    assert!(interpret_remove(&RemoveOutcome::Removed).is_ok());
    let refused = RemoveOutcome::Failed {
        status_code: Some(409),
        message: String::from("conflict"),
    };
    assert!(matches!(
        interpret_remove(&refused),
        Err(SentinelError::DaemonError(_))
    ));
    let transport = RemoveOutcome::Failed {
        status_code: None,
        message: String::from("socket closed"),
    };
    assert!(interpret_remove(&transport).is_err());
}

#[test]
fn tearing_down_an_already_gone_stack_succeeds() {
    // Every removal answers 404: the whole pass is a success.
    let outcomes = vec![
        RemoveOutcome::Failed {
            status_code: Some(404),
            message: String::from("no such container"),
        },
        RemoveOutcome::Failed {
            status_code: Some(404),
            message: String::from("no such container"),
        },
        RemoveOutcome::Failed {
            status_code: Some(404),
            message: String::from("no such network"),
        },
    ];
    assert!(teardown_outcome(&outcomes).is_ok());

    let mixed = vec![
        RemoveOutcome::Removed,
        RemoveOutcome::Failed {
            status_code: Some(500),
            message: String::from("daemon error"),
        },
    ];
    assert!(teardown_outcome(&mixed).is_err());
}

#[test]
fn error_statuses_follow_the_taxonomy() {
    assert_eq!(SentinelError::NotFound(String::new()).http_status(), 404);
    assert_eq!(SentinelError::InvalidInput(String::new()).http_status(), 400);
    assert_eq!(SentinelError::Unrecoverable(String::new()).http_status(), 410);
    assert_eq!(SentinelError::StartupTimeout(String::new()).http_status(), 504);
    assert_eq!(SentinelError::HealthcheckTimeout(String::new()).http_status(), 503);
    assert_eq!(SentinelError::DaemonError(String::new()).http_status(), 500);
    assert_eq!(SentinelError::StoreError(String::new()).http_status(), 500);
    assert_eq!(SentinelError::ProxyError(String::new()).http_status(), 502);
    assert_eq!(SentinelError::ConfigError(String::new()).http_status(), 500);
    let e = SentinelError::NotFound(String::from("echo"));
    assert_eq!(e.message(), "not found: echo");
    // The explicit start endpoint: unknown function is the caller's
    // mistake, everything else an internal error.
    assert_eq!(SentinelError::NotFound(String::new()).start_status(), 400);
    assert_eq!(SentinelError::InvalidInput(String::new()).start_status(), 400);
    assert_eq!(SentinelError::DaemonError(String::new()).start_status(), 500);
    assert_eq!(SentinelError::HealthcheckTimeout(String::new()).start_status(), 500);
}
