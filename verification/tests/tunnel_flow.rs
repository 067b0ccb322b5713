use wsrx::message::{bridge_step, BridgeAction, BridgeEvent, Message, MessageCodec};
use wsrx::registry::{InstanceData, ProxyInstance, TunnelRegistry};
use wsrx::tunnel::{
    AcceptDecision, Tunnel, TunnelConfig, TunnelLifecycle, TunnelState,
};

#[test]
fn lifecycle_runs_forward_only() {
    let mut life = TunnelLifecycle::new();
    assert!(matches!(life.state, TunnelState::Starting));
    life.launch();
    assert!(matches!(life.state, TunnelState::Running));
    assert!(matches!(life.on_accept(true, false), AcceptDecision::Bridge));
    assert!(matches!(life.state, TunnelState::Running));
    life.on_connect_failure();
    assert!(matches!(life.state, TunnelState::Cancelling));
    assert!(matches!(life.on_accept(true, false), AcceptDecision::Stop));
    assert!(matches!(life.state, TunnelState::Stopped));
    life.close();
    assert!(matches!(life.state, TunnelState::Stopped));
}

#[test]
fn accept_error_cancels_the_whole_tunnel() {
    let mut life = TunnelLifecycle::new();
    life.launch();
    assert!(matches!(life.on_accept(false, false), AcceptDecision::CancelAndStop));
    assert!(matches!(life.state, TunnelState::Stopped));
}

#[test]
fn cancellation_is_observed_before_serving_a_connection() {
    let mut life = TunnelLifecycle::new();
    life.launch();
    assert!(matches!(life.on_accept(true, true), AcceptDecision::Stop));
    assert!(matches!(life.state, TunnelState::Stopped));
}

#[test]
fn resolved_address_is_registered_and_client_bytes_become_one_binary_frame() {
    // A caller asks for port 0; the shell binds and reports the resolved
    // address, which is what the registry must key the tunnel by.
    let requested = "127.0.0.1:0";
    let resolved = String::from("127.0.0.1:50514");
    assert_ne!(resolved, requested);

    let rt = tokio::runtime::Runtime::new().unwrap();
    let mut reg = TunnelRegistry::new();
    let data = InstanceData {
        label: String::from("echo"),
        remote: String::from("wss://echo.example"),
        local: resolved.clone(),
        latency: -1,
        scope_host: String::from("https://a.example"),
    };
    let config = TunnelConfig { local: resolved.clone(), remote: data.remote.clone() };
    let tunnel = Tunnel::attach(
        config,
        tokio_util::sync::CancellationToken::new(),
        rt.spawn(async {}),
    );
    reg.register(ProxyInstance::new(data, tunnel)).unwrap();
    assert_eq!(reg.list("https://a.example")[0].local, resolved);

    // The accept loop takes one connection and serves it.
    let mut life = TunnelLifecycle::new();
    life.launch();
    assert!(matches!(life.on_accept(true, false), AcceptDecision::Bridge));

    // The client writes three bytes on the TCP side; the codec frames them
    // and the bridge forwards exactly one binary frame to the remote.
    let mut codec = MessageCodec::new();
    let mut read_buf = vec![0x01u8, 0x02, 0x03];
    let msg = codec.decode(&mut read_buf).unwrap().unwrap();
    assert!(read_buf.is_empty());
    let frame = match bridge_step(BridgeEvent::TcpChunk(match msg {
        Message::Binary(d) => d,
        Message::Others => panic!("expected bytes"),
    })) {
        BridgeAction::SendWs(Message::Binary(d)) => d,
        _ => panic!("expected one outgoing binary frame"),
    };
    assert_eq!(frame, vec![0x01, 0x02, 0x03]);

    // Nothing further arrives once the codec drained the buffer.
    assert!(codec.decode(&mut read_buf).unwrap().is_none());
}
