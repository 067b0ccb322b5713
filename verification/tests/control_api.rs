use wsrx::api::{
    delete_pool, error_status, get_connect, get_pool, patch_connect, post_connect,
    post_connect_defaults, revoke_scope, route, CorsClass, Endpoint, HttpMethod, ServerState,
};
use wsrx::scope::ScopeState;
use wsrx::errors::{Error, TransportSide};
use wsrx::flags::FeatureFlags;
use wsrx::registry::{InstanceData, ProxyInstance};
use wsrx::scope::ScopeSettings;
use wsrx::tunnel::{Tunnel, TunnelConfig};

fn instance(rt: &tokio::runtime::Runtime, local: &str, remote: &str, scope: &str) -> ProxyInstance {
    let d = InstanceData {
        label: String::from("t"),
        remote: String::from(remote),
        local: String::from(local),
        latency: -1,
        scope_host: String::from(scope),
    };
    let config = TunnelConfig { local: d.local.clone(), remote: d.remote.clone() };
    ProxyInstance::new(
        d,
        Tunnel::attach(config, tokio_util::sync::CancellationToken::new(), rt.spawn(async {})),
    )
}

fn basic() -> FeatureFlags {
    FeatureFlags { basic: true, pingfall: false }
}

#[test]
fn routing_matches_the_api_table() {
    assert_eq!(route(HttpMethod::Get, "/pool"), Some((Endpoint::PoolList, CorsClass::Scoped)));
    assert_eq!(route(HttpMethod::Post, "/pool"), Some((Endpoint::PoolCreate, CorsClass::Scoped)));
    assert_eq!(route(HttpMethod::Delete, "/pool"), Some((Endpoint::PoolDelete, CorsClass::Scoped)));
    assert_eq!(route(HttpMethod::Patch, "/pool"), None);
    assert_eq!(
        route(HttpMethod::Get, "/connect"),
        Some((Endpoint::ConnectStatus, CorsClass::AnyOrigin))
    );
    assert_eq!(
        route(HttpMethod::Post, "/connect"),
        Some((Endpoint::ConnectRequest, CorsClass::AnyOrigin))
    );
    assert_eq!(
        route(HttpMethod::Patch, "/connect"),
        Some((Endpoint::ConnectUpdate, CorsClass::AnyOrigin))
    );
    assert_eq!(route(HttpMethod::Get, "/version"), Some((Endpoint::Version, CorsClass::AnyOrigin)));
    assert_eq!(route(HttpMethod::Post, "/popup"), Some((Endpoint::Popup, CorsClass::AnyOrigin)));
    assert_eq!(route(HttpMethod::Get, "/nowhere"), None);
}

#[test]
fn error_statuses_follow_the_taxonomy() {
    assert_eq!(error_status(&Error::AddressParse), 400);
    assert_eq!(error_status(&Error::BindConflict), 400);
    assert_eq!(error_status(&Error::BindFailure), 500);
    assert_eq!(error_status(&Error::UnknownScope), 403);
    assert_eq!(error_status(&Error::UnknownTunnel), 400);
}

#[test]
fn connect_flow_pending_then_approved_then_pool_accessible() {
    let rt = tokio::runtime::Runtime::new().unwrap();
    let mut state = ServerState::new();
    let origin = "https://a.example";

    assert_eq!(get_connect(&state, origin), 403);

    let (status, _) = post_connect(&mut state, origin, String::new(), basic(), ScopeSettings::none());
    assert_eq!(status, 200);
    assert_eq!(get_connect(&state, origin), 201);
    assert!(!state.scopes.cors_allows(origin));

    state.scopes.approve(origin).unwrap();
    assert_eq!(get_connect(&state, origin), 202);
    assert!(state.scopes.cors_allows(origin));

    assert!(state.instances.create_plan(origin, "wss://x.example", "t").is_none());
    let created = state
        .instances
        .register(instance(&rt, "127.0.0.1:4001", "wss://x.example", origin))
        .unwrap();
    assert_eq!(created.local, "127.0.0.1:4001");
    let (status, listed) = get_pool(&state, origin);
    assert_eq!(status, 200);
    assert_eq!(listed.len(), 1);
}

#[test]
fn patch_connect_updates_only_known_scopes() {
    let mut state = ServerState::new();
    assert_eq!(
        patch_connect(&mut state, "https://a.example", String::from("n"), basic(), ScopeSettings::none()),
        403
    );
    post_connect(&mut state, "https://a.example", String::new(), basic(), ScopeSettings::none());
    assert_eq!(
        patch_connect(&mut state, "https://a.example", String::from("n"), basic(), ScopeSettings::none()),
        200
    );
    assert_eq!(state.scopes.get("https://a.example").unwrap().name, "n");
}

#[test]
fn delete_pool_refuses_a_foreign_tunnel_and_keeps_it_listed() {
    let rt = tokio::runtime::Runtime::new().unwrap();
    let mut state = ServerState::new();
    post_connect(&mut state, "https://a.example", String::new(), basic(), ScopeSettings::none());
    state
        .instances
        .register(instance(&rt, "127.0.0.1:9", "wss://x.example", "https://a.example"))
        .unwrap();

    let (status, res) = delete_pool(&mut state, "https://b.example", "127.0.0.1:9");
    assert_eq!(status, 400);
    assert!(matches!(res, Err(Error::Unauthorized)));
    let (_, listed) = get_pool(&state, "https://a.example");
    assert_eq!(listed.len(), 1);

    let (status, res) = delete_pool(&mut state, "https://a.example", "127.0.0.1:9");
    assert_eq!(status, 200);
    assert!(res.is_ok());
    let (_, listed) = get_pool(&state, "https://a.example");
    assert!(listed.is_empty());
}

#[test]
fn delete_pool_of_an_unknown_tunnel_is_a_client_error() {
    let mut state = ServerState::new();
    let (status, res) = delete_pool(&mut state, "https://a.example", "127.0.0.1:9");
    assert_eq!(status, 400);
    assert!(matches!(res, Err(Error::UnknownTunnel)));
}

#[test]
fn revoking_a_scope_cascades_to_its_tunnels() {
    let rt = tokio::runtime::Runtime::new().unwrap();
    let mut state = ServerState::new();
    post_connect(&mut state, "a", String::new(), basic(), ScopeSettings::none());
    post_connect(&mut state, "b", String::new(), basic(), ScopeSettings::none());
    state.instances.register(instance(&rt, "127.0.0.1:4001", "wss://x", "a")).unwrap();
    state.instances.register(instance(&rt, "127.0.0.1:4002", "wss://y", "b")).unwrap();
    state.instances.register(instance(&rt, "127.0.0.1:4003", "wss://z", "a")).unwrap();

    let (record, removed) = revoke_scope(&mut state, "a").unwrap();
    assert_eq!(record.host, "a");
    assert_eq!(removed.len(), 2);
    assert!(state.instances.list("a").is_empty());
    assert_eq!(state.instances.list("b").len(), 1);
    assert!(state.scopes.get("a").is_none());
    assert!(state.scopes.get("b").is_some());

    assert!(revoke_scope(&mut state, "a").is_err());
}

#[test]
fn transport_and_connect_failures_are_server_side_statuses() {
    assert_eq!(error_status(&Error::Transport(TransportSide::Io)), 500);
    assert_eq!(error_status(&Error::Transport(TransportSide::WebSocket)), 500);
    assert_eq!(error_status(&Error::ConnectFailure), 502);
}

#[test]
fn bodyless_request_defaults_to_the_basic_capability() {
    let mut state = ServerState::new();
    let (status, _) = post_connect_defaults(&mut state, "https://a.example");
    assert_eq!(status, 200);
    let record = state.scopes.get("https://a.example").unwrap();
    assert_eq!(record.host, "https://a.example");
    assert_eq!(record.name, "https://a.example");
    assert!(matches!(record.state, ScopeState::Pending));
    assert_eq!(record.features, FeatureFlags { basic: true, pingfall: false });
    assert!(record.settings.pingfall.is_none());
}

#[test]
fn bodyless_request_leaves_an_existing_record_untouched() {
    let mut state = ServerState::new();
    post_connect(
        &mut state,
        "https://a.example",
        String::from("site a"),
        FeatureFlags { basic: true, pingfall: true },
        ScopeSettings::none(),
    );
    post_connect_defaults(&mut state, "https://a.example");
    let record = state.scopes.get("https://a.example").unwrap();
    assert_eq!(record.name, "site a");
    assert!(record.features.pingfall);
}
