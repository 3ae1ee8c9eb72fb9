use healthcheck::{
    accepts_connections, next_state, ConfigError, ListenerEvent, ListenerState, Orchestrator,
    Response, RouteTable, ShutdownCoordinator,
};

fn strings(items: &[&str]) -> Vec<String> {
    items.iter().map(|s| s.to_string()).collect()
}

fn resolved(ports: &str, paths: &str) -> Result<Orchestrator, ConfigError> {
    Orchestrator::resolve(&strings(&[ports]), &strings(&[paths]))
}

#[test]
fn health_path_answers_ok_and_unknown_is_not_found() {
    let o = resolved("8080", "/health").unwrap();
    assert_eq!(o.listener_count(), 1);
    assert_eq!(o.port(0), 8080);
    let ok = o.routes().route("/health", true);
    assert_eq!(ok, Response::Healthy);
    assert_eq!(ok.status(), 200);
    assert_eq!(ok.body(), "OK");
    let missing = o.routes().route("/unknown", true);
    assert_eq!(missing, Response::NotFound);
    assert_eq!(missing.status(), 404);
    assert_eq!(missing.body(), "");
}

#[test]
fn route_matches_exactly() {
    let table = RouteTable::new(strings(&["/health"]));
    assert_eq!(table.route("/health/", true), Response::NotFound);
    assert_eq!(table.route("/healthz", true), Response::NotFound);
    assert_eq!(table.route("/health", false), Response::MethodNotAllowed);
    assert_eq!(Response::MethodNotAllowed.status(), 405);
}

#[test]
fn two_ports_serve_the_same_paths() {
    let o = resolved("8080,9090", "/health").unwrap();
    assert_eq!(o.listener_count(), 2);
    assert_eq!(o.port(0), 8080);
    assert_eq!(o.port(1), 9090);
    assert_eq!(o.routes().paths(), &strings(&["/health"]));
    assert_eq!(o.routes().route("/health", true).status(), 200);
    assert_eq!(o.state(0), ListenerState::Starting);
    assert_eq!(o.state(1), ListenerState::Starting);
}

#[test]
fn duplicate_ports_give_one_listener_each() {
    let o = resolved("8080,8080,80", "/health").unwrap();
    assert_eq!(o.listener_count(), 2);
    assert_eq!(o.port(0), 8080);
    assert_eq!(o.port(1), 80);
}

#[test]
fn no_valid_port_starts_nothing() {
    assert!(matches!(resolved("abc,xyz", "/health"), Err(ConfigError::NoPorts)));
    assert!(matches!(resolved("", "/health"), Err(ConfigError::NoPorts)));
}

#[test]
fn no_path_starts_nothing() {
    assert!(matches!(resolved("8080", ""), Err(ConfigError::NoPaths)));
    assert!(matches!(resolved("", ""), Err(ConfigError::NoPorts)));
    assert!(matches!(Orchestrator::start(vec![8080], Vec::new()), Err(ConfigError::NoPaths)));
}

#[test]
fn lifecycle_transitions() {
    assert_eq!(next_state(ListenerState::Starting, ListenerEvent::Bound), ListenerState::Listening);
    assert_eq!(next_state(ListenerState::Starting, ListenerEvent::BindFailed), ListenerState::Stopped);
    assert_eq!(next_state(ListenerState::Listening, ListenerEvent::ShutdownObserved), ListenerState::Draining);
    assert_eq!(next_state(ListenerState::Listening, ListenerEvent::ServeFailed), ListenerState::Stopped);
    assert_eq!(next_state(ListenerState::Draining, ListenerEvent::Drained), ListenerState::Stopped);
    assert_eq!(next_state(ListenerState::Draining, ListenerEvent::ServeFailed), ListenerState::Stopped);
    assert_eq!(next_state(ListenerState::Draining, ListenerEvent::Bound), ListenerState::Draining);
    assert_eq!(next_state(ListenerState::Stopped, ListenerEvent::Bound), ListenerState::Stopped);
    assert_eq!(next_state(ListenerState::Starting, ListenerEvent::Drained), ListenerState::Starting);
    assert!(accepts_connections(ListenerState::Listening));
    assert!(!accepts_connections(ListenerState::Starting));
    assert!(!accepts_connections(ListenerState::Draining));
    assert!(!accepts_connections(ListenerState::Stopped));
}

#[test]
fn shutdown_fires_once_and_each_subscription_sees_it_once() {
    let mut c = ShutdownCoordinator::new();
    let mut a = c.subscribe();
    let mut b = c.subscribe();
    assert!(!c.is_fired());
    assert!(!a.observe(&c));
    assert!(c.trigger());
    assert!(!c.trigger());
    assert!(c.is_fired());
    assert!(a.observe(&c));
    assert!(!a.observe(&c));
    assert!(b.observe(&c));
    assert!(b.has_observed());
}

#[test]
fn final_notice_waits_for_every_listener() {
    let mut o = resolved("8080,9090", "/health").unwrap();
    assert!(!o.all_stopped());
    assert_eq!(o.record(0, ListenerEvent::Bound), ListenerState::Listening);
    assert_eq!(o.record(1, ListenerEvent::Bound), ListenerState::Listening);
    assert!(o.trigger_shutdown());
    assert!(!o.trigger_shutdown());
    assert!(o.shutdown().is_fired());
    assert_eq!(o.record(0, ListenerEvent::ShutdownObserved), ListenerState::Draining);
    assert_eq!(o.record(1, ListenerEvent::ShutdownObserved), ListenerState::Draining);
    assert!(!accepts_connections(o.state(0)));
    assert_eq!(o.record(0, ListenerEvent::Drained), ListenerState::Stopped);
    assert!(!o.all_stopped());
    assert_eq!(o.record(1, ListenerEvent::Drained), ListenerState::Stopped);
    assert!(o.all_stopped());
}

#[test]
fn bind_failure_stops_only_that_listener() {
    let mut o = resolved("8080,9090", "/health").unwrap();
    assert_eq!(o.record(0, ListenerEvent::BindFailed), ListenerState::Stopped);
    assert_eq!(o.record(1, ListenerEvent::Bound), ListenerState::Listening);
    assert!(!o.all_stopped());
    assert_eq!(o.record(1, ListenerEvent::ServeFailed), ListenerState::Stopped);
    assert!(o.all_stopped());
}

#[test]
fn fresh_subscription_has_not_observed() {
    let o = resolved("8080", "/").unwrap();
    let s = o.subscribe();
    assert!(!s.has_observed());
    assert_eq!(o.routes().route("/", true), Response::Healthy);
}
