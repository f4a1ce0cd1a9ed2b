use coupe::config::{
    parse_otel_endpoint, Broker, Config, Function, HttpAuth, HttpMethod, Identity,
    IdentityProvider, Policy, Queue, Scaling, Stream, Trigger,
};
use coupe::time::session_display;
use coupe::Session;
use coupe::SentinelError;

fn demo_config() -> Config {
    Config {
        name: String::from("blog"),
        version: Some(String::from("0.0.1")),
        description: None,
        sentinel: None,
        identity: Some(Identity {
            provider: IdentityProvider {
                provider_type: String::from("oidc"),
                domain: String::from("example.test"),
                client_id: String::from("id"),
                client_secret: String::from("SECRET-REDACTED"),
                audience: String::from("api"),
            },
        }),
        brokers: vec![(
            String::from("main"),
            Broker::Nats {
                connection: String::from("nats://broker:4222"),
            },
        )],
        queues: vec![(
            String::from("jobs"),
            Queue {
                broker: String::from("main"),
                subject: String::from("jobs.created"),
            },
        )],
        streams: vec![(
            String::from("events"),
            Stream {
                broker: String::from("main"),
                stream: String::from("events"),
                subjects: vec![String::from("events.a"), String::from("events.b")],
                consumer_name: None,
            },
        )],
        functions: vec![
            (
                String::from("web"),
                Function {
                    image: String::from("web:1"),
                    trigger: Trigger::Http {
                        path: String::from("/"),
                        method: Some(HttpMethod::Get),
                        auth: Some(HttpAuth::Web {
                            protected_routes: vec![String::from("/admin")],
                            policies: vec![String::from("admin")],
                        }),
                    },
                    scaling: Some(Scaling {
                        session_duration: Some(60),
                        health_check_interval: None,
                    }),
                    handler_port: Some(3000),
                },
            ),
            (
                String::from("worker"),
                Function {
                    image: String::from("worker:1"),
                    trigger: Trigger::Queue {
                        queue: String::from("jobs"),
                    },
                    scaling: None,
                    handler_port: None,
                },
            ),
            (
                String::from("auditor"),
                Function {
                    image: String::from("auditor:1"),
                    trigger: Trigger::Stream {
                        stream: String::from("events"),
                    },
                    scaling: None,
                    handler_port: None,
                },
            ),
        ],
    }
}

#[test]
fn derived_names_follow_the_stack_name() {
    let config = demo_config();
    assert_eq!(config.stack_network_name(), "coupe-blog-network");
    assert_eq!(config.sentinel_container_name(), "coupe-blog-sentinel");
    assert_eq!(
        config.function_container_name("web"),
        "coupe-blog-function-web"
    );
}

#[test]
fn ports_fall_back_to_their_defaults() {
    let config = demo_config();
    assert_eq!(config.sentinel_port(), 52345);
    assert_eq!(config.function_handler_port("web").expect("web"), 3000);
    assert_eq!(config.function_handler_port("worker").expect("worker"), 80);
    assert!(matches!(
        config.function_handler_port("ghost"),
        Err(SentinelError::InvalidInput(_))
    ));
}

#[test]
fn internal_urls_carry_scheme_container_and_port() {
    let config = demo_config();
    assert_eq!(
        config.internal_function_url("web").expect("url"),
        "http://coupe-blog-function-web:3000"
    );
    assert_eq!(
        config.internal_function_healthcheck_url("worker").expect("url"),
        "http://coupe-blog-function-worker:80/health"
    );
}

#[test]
fn http_functions_lists_only_http_triggers() {
    let config = demo_config();
    let names = config.http_functions();
    assert_eq!(names, vec![String::from("web")]);
}

#[test]
fn subscription_config_joins_triggers_with_their_bindings() {
    let config = demo_config();
    let pairs = config.get_subscription_config();
    assert_eq!(
        pairs,
        vec![
            (String::from("jobs.created"), String::from("worker")),
            (String::from("events.a"), String::from("auditor")),
            (String::from("events.b"), String::from("auditor")),
        ]
    );
}

#[test]
fn as_http_splits_only_http_triggers() {
    let config = demo_config();
    let (path, method, auth) = config.functions[0]
        .1
        .trigger
        .clone()
        .as_http()
        .expect("http trigger");
    assert_eq!(path, "/");
    assert_eq!(method, Some(HttpMethod::Get));
    match auth {
        Some(HttpAuth::Web {
            protected_routes,
            policies,
        }) => {
            assert_eq!(protected_routes, vec![String::from("/admin")]);
            assert_eq!(policies, vec![String::from("admin")]);
        }
        _ => panic!("the auth descriptor must come through verbatim"),
    }
    assert!(config.functions[1].1.trigger.clone().as_http().is_none());
    let _ = Policy {
        source: String::from("allow all"),
    };
}

#[test]
fn otel_endpoints_split_into_host_and_port() {
    assert_eq!(
        parse_otel_endpoint("collector:4317").expect("explicit"),
        (String::from("collector"), 4317)
    );
    assert_eq!(
        parse_otel_endpoint("  collector  ").expect("trimmed, default port"),
        (String::from("collector"), 4318)
    );
    assert_eq!(
        parse_otel_endpoint("::1").expect("last colon splits"),
        (String::from(":"), 1)
    );
    assert!(matches!(
        parse_otel_endpoint("collector:notaport"),
        Err(SentinelError::InvalidInput(_))
    ));
    assert!(matches!(
        parse_otel_endpoint("collector:99999"),
        Err(SentinelError::InvalidInput(_))
    ));
    assert!(matches!(
        parse_otel_endpoint("collector:"),
        Err(SentinelError::InvalidInput(_))
    ));
}

#[test]
fn sessions_render_as_rfc3339_instants() {
    let s = Session {
        function_name: String::from("echo"),
        ends_at: 0,
    };
    let (name, rendered) = session_display(&s).expect("epoch renders");
    assert_eq!(name, "echo");
    assert_eq!(rendered, "1970-01-01T00:00:00Z");

    let s = Session {
        function_name: String::from("echo"),
        ends_at: 1,
    };
    let (_, rendered) = session_display(&s).expect("nanosecond renders");
    assert_eq!(rendered, "1970-01-01T00:00:00.000000001Z");

    let out_of_range = Session {
        function_name: String::from("echo"),
        ends_at: i128::MAX,
    };
    assert!(matches!(
        session_display(&out_of_range),
        Err(SentinelError::InvalidInput(_))
    ));
}
