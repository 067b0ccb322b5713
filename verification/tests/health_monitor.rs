use wsrx::api::ServerState;
use wsrx::flags::{FeatureFlags, PingFallSettings};
use wsrx::monitor::{
    apply_probe, heartbeat_expired, probe_latency, probe_url, should_evict, ProbeFailure,
};
use wsrx::registry::{InstanceData, ProxyInstance};
use wsrx::scope::ScopeSettings;
use wsrx::tunnel::{Tunnel, TunnelConfig};

fn instance(rt: &tokio::runtime::Runtime, local: &str, remote: &str, scope: &str) -> ProxyInstance {
    let d = InstanceData {
        label: String::from("t"),
        remote: String::from(remote),
        local: String::from(local),
        latency: -1,
        scope_host: String::from(scope),
    };
    let config = TunnelConfig { local: d.local.clone(), remote: d.remote.clone() };
    ProxyInstance::new(d, Tunnel::attach(config, tokio_util::sync::CancellationToken::new(), rt.spawn(async {})))
}

#[test]
fn probe_success_records_half_the_round_trip() {
    assert_eq!(probe_latency(204, 30), Ok(15));
    assert_eq!(probe_latency(200, 0), Ok(0));
    assert_eq!(probe_latency(299, 7), Ok(3));
}

#[test]
fn probe_non_success_is_a_status_failure() {
    assert_eq!(probe_latency(503, 30), Err(ProbeFailure::Status(503)));
    assert_eq!(probe_latency(199, 30), Err(ProbeFailure::Status(199)));
    assert_eq!(probe_latency(300, 30), Err(ProbeFailure::Status(300)));
}

fn scope_with(
    pingfall_feature: bool,
    settings: Option<PingFallSettings>,
) -> wsrx::scope::ScopeData {
    let mut state = wsrx::api::ServerState::new();
    wsrx::api::post_connect(
        &mut state,
        "https://a.example",
        String::new(),
        FeatureFlags { basic: true, pingfall: pingfall_feature },
        ScopeSettings { pingfall: settings },
    );
    state.scopes.get("https://a.example").unwrap()
}

#[test]
fn eviction_needs_the_pingfall_feature() {
    let sc = scope_with(false, None);
    assert!(!should_evict(&sc, &ProbeFailure::Status(503)));
    assert!(!should_evict(&sc, &ProbeFailure::Transport));
}

#[test]
fn fail_status_set_filters_which_codes_evict() {
    let sc = scope_with(true, Some(PingFallSettings { fail_status: vec![503], drop_unknown: false }));
    assert!(should_evict(&sc, &ProbeFailure::Status(503)));
    assert!(!should_evict(&sc, &ProbeFailure::Status(500)));
    assert!(!should_evict(&sc, &ProbeFailure::Transport));
}

#[test]
fn empty_fail_status_set_evicts_on_any_status() {
    let sc = scope_with(true, Some(PingFallSettings { fail_status: vec![], drop_unknown: false }));
    assert!(should_evict(&sc, &ProbeFailure::Status(500)));
    assert!(should_evict(&sc, &ProbeFailure::Status(404)));
    assert!(!should_evict(&sc, &ProbeFailure::Transport));
}

#[test]
fn drop_unknown_decides_transport_failures() {
    let sc = scope_with(true, Some(PingFallSettings { fail_status: vec![], drop_unknown: true }));
    assert!(should_evict(&sc, &ProbeFailure::Transport));
}

#[test]
fn pingfall_evicts_the_tunnel_after_one_failing_probe() {
    let rt = tokio::runtime::Runtime::new().unwrap();
    let mut state = ServerState::new();
    wsrx::api::post_connect(
        &mut state,
        "https://a.example",
        String::new(),
        FeatureFlags { basic: true, pingfall: true },
        ScopeSettings {
            pingfall: Some(PingFallSettings { fail_status: vec![503], drop_unknown: false }),
        },
    );
    state
        .instances
        .register(instance(&rt, "127.0.0.1:4001", "wss://x.example", "https://a.example"))
        .unwrap();
    let outcome = probe_latency(503, 12);
    let evicted = apply_probe(&mut state.instances, &state.scopes, "127.0.0.1:4001", &outcome);
    assert!(evicted);
    assert!(state.instances.list("https://a.example").is_empty());
}

#[test]
fn successful_probe_updates_latency_and_keeps_the_tunnel() {
    let rt = tokio::runtime::Runtime::new().unwrap();
    let mut state = ServerState::new();
    wsrx::api::post_connect(
        &mut state,
        "https://a.example",
        String::new(),
        FeatureFlags { basic: true, pingfall: true },
        ScopeSettings::none(),
    );
    state
        .instances
        .register(instance(&rt, "127.0.0.1:4001", "wss://x.example", "https://a.example"))
        .unwrap();
    let evicted = apply_probe(
        &mut state.instances,
        &state.scopes,
        "127.0.0.1:4001",
        &probe_latency(200, 28),
    );
    assert!(!evicted);
    let listed = state.instances.list("https://a.example");
    assert_eq!(listed.len(), 1);
    assert_eq!(listed[0].latency, 14);
}

#[test]
fn failing_probe_without_pingfall_marks_latency_unknown() {
    let rt = tokio::runtime::Runtime::new().unwrap();
    let mut state = ServerState::new();
    wsrx::api::post_connect(
        &mut state,
        "https://a.example",
        String::new(),
        FeatureFlags { basic: true, pingfall: false },
        ScopeSettings::none(),
    );
    state
        .instances
        .register(instance(&rt, "127.0.0.1:4001", "wss://x.example", "https://a.example"))
        .unwrap();
    state.instances.set_latency("127.0.0.1:4001", 9);
    let evicted = apply_probe(
        &mut state.instances,
        &state.scopes,
        "127.0.0.1:4001",
        &probe_latency(503, 12),
    );
    assert!(!evicted);
    let listed = state.instances.list("https://a.example");
    assert_eq!(listed.len(), 1);
    assert_eq!(listed[0].latency, -1);
}

#[test]
fn probe_url_rewrites_the_websocket_scheme() {
    assert_eq!(probe_url("wss://echo.example/ws"), "https://echo.example/ws");
    assert_eq!(probe_url("ws://127.0.0.1:8080"), "http://127.0.0.1:8080");
    assert_eq!(probe_url("https://already.http"), "https://already.http");
}

#[test]
fn heartbeat_expiry_compares_against_the_interval() {
    assert!(!heartbeat_expired(100, 110, 30));
    assert!(!heartbeat_expired(100, 130, 30));
    assert!(heartbeat_expired(100, 131, 30));
    assert!(heartbeat_expired(i64::MIN, i64::MAX, 60));
}

#[test]
fn only_websocket_schemes_may_be_tunneled() {
    assert!(wsrx::monitor::is_ws_scheme("ws://127.0.0.1:8080"));
    assert!(wsrx::monitor::is_ws_scheme("wss://echo.example"));
    assert!(!wsrx::monitor::is_ws_scheme("https://echo.example"));
    assert!(!wsrx::monitor::is_ws_scheme("tcp://x"));
}

#[test]
fn heartbeat_check_relates_its_flag_to_the_clock_it_read() {
    let (expired, now) = wsrx::monitor::heartbeat_check(i64::MIN / 2, 60);
    assert!(expired);
    assert!(now - i64::MIN / 2 > 60);
    let (expired, _) = wsrx::monitor::heartbeat_check(i64::MAX / 2, 60);
    assert!(!expired);
}

#[test]
fn probe_latency_saturates_at_the_field_maximum() {
    assert_eq!(probe_latency(200, u64::MAX), Ok(i32::MAX));
    assert_eq!(probe_latency(200, (i32::MAX as u64) * 2), Ok(i32::MAX));
    assert_eq!(probe_latency(200, (i32::MAX as u64) * 2 + 2), Ok(i32::MAX));
}
