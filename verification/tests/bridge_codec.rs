use wsrx::errors::{Error, TransportSide};
use wsrx::message::{
    bridge_step, classify_frame, BridgeAction, BridgeEvent, FrameKind, Message, MessageCodec,
};

#[test]
fn decode_drains_the_buffer_into_one_binary_frame() {
    let mut codec = MessageCodec::new();
    let mut buf = vec![0x01u8, 0x02, 0x03];
    let msg = codec.decode(&mut buf).unwrap().unwrap();
    match msg {
        Message::Binary(d) => assert_eq!(d, vec![0x01, 0x02, 0x03]),
        Message::Others => panic!("expected a binary frame"),
    }
    assert!(buf.is_empty());
}

#[test]
fn decode_of_an_empty_buffer_yields_nothing() {
    let mut codec = MessageCodec::new();
    let mut buf: Vec<u8> = Vec::new();
    assert!(codec.decode(&mut buf).unwrap().is_none());
    assert!(buf.is_empty());
}

#[test]
fn encode_appends_the_payload_verbatim() {
    let mut codec = MessageCodec::new();
    let mut buf = vec![0xAAu8];
    codec.encode(Message::Binary(vec![0x01, 0x02, 0x03]), &mut buf).unwrap();
    assert_eq!(buf, vec![0xAA, 0x01, 0x02, 0x03]);
    codec.encode(Message::Others, &mut buf).unwrap();
    assert_eq!(buf, vec![0xAA, 0x01, 0x02, 0x03]);
}

#[test]
fn encode_then_decode_round_trips_the_bytes() {
    let mut codec = MessageCodec::new();
    let payload = vec![0x00u8, 0xFF, 0x10, 0x20];
    let mut buf: Vec<u8> = Vec::new();
    codec.encode(Message::Binary(payload.clone()), &mut buf).unwrap();
    assert_eq!(buf, payload);
    let back = codec.decode(&mut buf).unwrap().unwrap();
    match back {
        Message::Binary(d) => assert_eq!(d, payload),
        Message::Others => panic!("expected a binary frame"),
    }
}

#[test]
fn tcp_bytes_become_one_binary_frame() {
    let action = bridge_step(BridgeEvent::TcpChunk(vec![0x01, 0x02, 0x03]));
    match action {
        BridgeAction::SendWs(Message::Binary(d)) => assert_eq!(d, vec![0x01, 0x02, 0x03]),
        _ => panic!("expected the bytes to be forwarded as one binary frame"),
    }
}

#[test]
fn binary_frames_reach_the_tcp_side_verbatim() {
    let action = bridge_step(BridgeEvent::WsFrame(Message::Binary(vec![9, 8, 7])));
    match action {
        BridgeAction::SendTcp(d) => assert_eq!(d, vec![9, 8, 7]),
        _ => panic!("expected the payload to be forwarded to the TCP side"),
    }
}

#[test]
fn non_binary_frames_are_discarded() {
    let action = bridge_step(BridgeEvent::WsFrame(Message::Others));
    assert!(matches!(action, BridgeAction::Discard));
}

#[test]
fn end_of_stream_stops_the_bridge_cleanly() {
    assert!(matches!(bridge_step(BridgeEvent::WsEnd), BridgeAction::StopOk));
    assert!(matches!(bridge_step(BridgeEvent::TcpEnd), BridgeAction::StopOk));
}

#[test]
fn failures_stop_the_bridge_with_the_failing_side() {
    let ws = bridge_step(BridgeEvent::WsError(TransportSide::ServerWebSocket));
    assert!(matches!(
        ws,
        BridgeAction::StopErr(Error::Transport(TransportSide::ServerWebSocket))
    ));
    let tcp = bridge_step(BridgeEvent::TcpError);
    assert!(matches!(tcp, BridgeAction::StopErr(Error::Transport(TransportSide::Io))));
}

#[test]
fn error_descriptions_are_stable() {
    assert_eq!(Error::BindConflict.describe(), "local address is already taken by another instance");
    assert_eq!(Error::UnknownTunnel.describe(), "tunnel not found");
    assert_eq!(Error::UnknownScope.describe(), "scope not found");
    assert_eq!(Error::AddressParse.describe(), "failed to parse address");
}

#[test]
fn only_binary_frames_carry_payload_into_the_bridge() {
    match classify_frame(FrameKind::Binary, vec![1, 2, 3]) {
        Message::Binary(d) => assert_eq!(d, vec![1, 2, 3]),
        Message::Others => panic!("a binary frame must keep its payload"),
    }
    assert!(matches!(classify_frame(FrameKind::Text, b"hello".to_vec()), Message::Others));
    assert!(matches!(classify_frame(FrameKind::Ping, vec![9]), Message::Others));
    assert!(matches!(classify_frame(FrameKind::Pong, vec![9]), Message::Others));
    assert!(matches!(classify_frame(FrameKind::Close, Vec::new()), Message::Others));
}

#[test]
fn text_frames_never_reach_the_tcp_side() {
    let frame = classify_frame(FrameKind::Text, b"not tunneled".to_vec());
    assert!(matches!(bridge_step(BridgeEvent::WsFrame(frame)), BridgeAction::Discard));
}
