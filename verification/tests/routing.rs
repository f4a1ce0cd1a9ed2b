use coupe::config::{Config, Function, HttpMethod, Trigger};
use coupe::routes::{build_route_table, ControlEndpoint, Resolution};

fn base_config() -> Config {
    Config {
        name: String::from("demo"),
        version: None,
        description: None,
        sentinel: None,
        identity: None,
        brokers: Vec::new(),
        queues: Vec::new(),
        streams: Vec::new(),
        functions: Vec::new(),
    }
}

fn http_function(path: &str, method: Option<HttpMethod>, port: Option<u16>) -> Function {
    Function {
        image: String::from("img:1"),
        trigger: Trigger::Http {
            path: String::from(path),
            method,
            auth: None,
        },
        scaling: None,
        handler_port: port,
    }
}

#[test]
fn exact_route_resolves_to_its_function() {
    let mut config = base_config();
    config
        .functions
        .push((String::from("echo"), http_function("/echo", None, Some(8080))));
    let table = build_route_table(&config).expect("build");
    match table.resolve(Some(HttpMethod::Get), "/echo") {
        Resolution::Function {
            function_name,
            internal_url,
        } => {
            assert_eq!(function_name, "echo");
            assert_eq!(internal_url, "http://coupe-demo-function-echo:8080");
        }
        _ => panic!("expected a function resolution"),
    }
    match table.resolve(Some(HttpMethod::Get), "/missing") {
        Resolution::NotFound => {}
        _ => panic!("expected not found"),
    }
}

#[test]
fn method_filter_limits_a_route() {
    let mut config = base_config();
    config.functions.push((
        String::from("submit"),
        http_function("/submit", Some(HttpMethod::Post), None),
    ));
    let table = build_route_table(&config).expect("build");
    assert!(matches!(
        table.resolve(Some(HttpMethod::Post), "/submit"),
        Resolution::Function { .. }
    ));
    assert!(matches!(
        table.resolve(Some(HttpMethod::Get), "/submit"),
        Resolution::NotFound
    ));
}

#[test]
fn wildcard_function_becomes_the_fallback() {
    let mut config = base_config();
    config
        .functions
        .push((String::from("catchall"), http_function("*", None, None)));
    let table = build_route_table(&config).expect("build");
    match table.resolve(Some(HttpMethod::Get), "/arbitrary/thing") {
        Resolution::Function { function_name, .. } => assert_eq!(function_name, "catchall"),
        _ => panic!("expected the fallback"),
    }
}

#[test]
fn control_paths_are_never_shadowed_by_the_wildcard() {
    let mut config = base_config();
    config
        .functions
        .push((String::from("catchall"), http_function("*", None, None)));
    let table = build_route_table(&config).expect("build");
    match table.resolve(Some(HttpMethod::Get), "/health") {
        Resolution::Control(ControlEndpoint::Health) => {}
        _ => panic!("/health must stay a control path"),
    }
    match table.resolve(Some(HttpMethod::Get), "/system/sessions") {
        Resolution::Control(ControlEndpoint::Sessions) => {}
        _ => panic!("/system/sessions must stay a control path"),
    }
    match table.resolve(Some(HttpMethod::Get), "/system/config") {
        Resolution::Control(ControlEndpoint::ConfigView) => {}
        _ => panic!("/system/config must stay a control path"),
    }
    match table.resolve(Some(HttpMethod::Post), "/system/functions/start") {
        Resolution::Control(ControlEndpoint::StartFunction) => {}
        _ => panic!("the start endpoint must stay a control path"),
    }
    match table.resolve(Some(HttpMethod::Get), "/system/anything-else") {
        Resolution::Control(ControlEndpoint::Unknown) => {}
        _ => panic!("unknown system routes stay in the control surface"),
    }
}

#[test]
fn duplicate_method_path_pairs_are_a_config_error() {
    let mut config = base_config();
    config
        .functions
        .push((String::from("a"), http_function("/same", Some(HttpMethod::Get), None)));
    config
        .functions
        .push((String::from("b"), http_function("/same", Some(HttpMethod::Get), None)));
    let err = build_route_table(&config).err().expect("must be refused");
    assert!(matches!(err, coupe::SentinelError::ConfigError(_)));

    // Different methods on the same path are two distinct routes.
    let mut ok_config = base_config();
    ok_config
        .functions
        .push((String::from("a"), http_function("/same", Some(HttpMethod::Get), None)));
    ok_config
        .functions
        .push((String::from("b"), http_function("/same", Some(HttpMethod::Post), None)));
    assert!(build_route_table(&ok_config).is_ok());
}

#[test]
fn last_wildcard_wins() {
    let mut config = base_config();
    config
        .functions
        .push((String::from("first"), http_function("*", None, None)));
    config
        .functions
        .push((String::from("second"), http_function("*", None, None)));
    let table = build_route_table(&config).expect("build");
    match table.resolve(None, "/x") {
        Resolution::Function { function_name, .. } => assert_eq!(function_name, "second"),
        _ => panic!("expected the later wildcard"),
    }
}
