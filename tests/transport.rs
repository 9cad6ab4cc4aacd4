use pixel_change_check::config::NetworkConfig;
use pixel_change_check::protocol::Message;
use pixel_change_check::transport::{ack_for, dispatch, ConnectionEvent, ConnectionState, Dispatch, TransportError};
use pixel_change_check::types::QualityConfig;

#[test]
fn frame_data_is_forwarded_and_acknowledged() {
    match dispatch(Message::FrameData { frame_id: 7, timestamp: 8, data: vec![1, 2] }) {
        Dispatch::ForwardFrame { frame_id, timestamp, data } => {
            assert_eq!((frame_id, timestamp, data), (7, 8, vec![1, 2]));
            assert!(matches!(ack_for(frame_id), Message::FrameAck { frame_id: 7 }));
        }
        _ => panic!("frame data not forwarded"),
    }
}

#[test]
fn control_messages_are_routed() {
    assert!(matches!(dispatch(Message::KeepAlive), Dispatch::KeepAliveSeen));
    let config = QualityConfig { target_fps: 15, max_fps: 30, quality_permille: 500, compression_level: 8 };
    match dispatch(Message::QualityConfig(config)) {
        Dispatch::QualityUpdated(c) => assert_eq!(c, config),
        _ => panic!("quality update not routed"),
    }
    match dispatch(Message::Error("boom".to_string())) {
        Dispatch::PeerError(text) => assert_eq!(text, "boom"),
        _ => panic!("error not routed"),
    }
    assert!(matches!(dispatch(Message::FrameAck { frame_id: 1 }), Dispatch::Ignore));
}

#[test]
fn connection_lifecycle() {
    let s = ConnectionState::Disconnected;
    assert_eq!(s.ensure_connected(), Err(TransportError::NotConnected));
    let s = s.on_event(ConnectionEvent::ConnectStarted);
    assert_eq!(s, ConnectionState::Connecting);
    assert_eq!(s.ensure_connected(), Err(TransportError::NotConnected));
    let failed = s.on_event(ConnectionEvent::HandshakeFailed);
    assert_eq!(failed, ConnectionState::Failed);
    let s = failed.on_event(ConnectionEvent::ConnectStarted).on_event(ConnectionEvent::HandshakeSucceeded);
    assert_eq!(s, ConnectionState::Connected);
    assert_eq!(s.ensure_connected(), Ok(()));
    assert_eq!(s.on_event(ConnectionEvent::ConnectStarted), ConnectionState::Connected);
    assert_eq!(s.on_event(ConnectionEvent::StreamEnded), ConnectionState::Disconnected);
    assert_eq!(s.on_event(ConnectionEvent::Shutdown), ConnectionState::Disconnected);
    assert_eq!(s.on_event(ConnectionEvent::HealthLost), ConnectionState::Failed);
    assert_eq!(ConnectionState::Connecting.on_event(ConnectionEvent::HealthLost), ConnectionState::Connecting);
    assert!(!s.may_connect());
    assert!(!ConnectionState::Connecting.may_connect());
    assert!(ConnectionState::Disconnected.may_connect());
    assert!(ConnectionState::Failed.may_connect());
    assert_eq!(ConnectionState::error_of(ConnectionEvent::StreamEnded), Some(TransportError::ConnectionClosed));
    assert_eq!(ConnectionState::error_of(ConnectionEvent::HandshakeFailed), Some(TransportError::ConnectFailed));
    assert_eq!(ConnectionState::error_of(ConnectionEvent::Shutdown), None);
}

#[test]
fn network_config_defaults() {
    let c = NetworkConfig::default();
    assert_eq!(c.port, None);
    assert_eq!(c.port_or_default(), 5800);
    assert_eq!(c.max_packet_size, 1400);
    assert_eq!(c.target_bandwidth, 5_000_000);
    assert_eq!(c.connection_timeout_ms, 10_000);
    assert_eq!(c.keepalive_interval_ms, 5_000);
    let c = NetworkConfig { port: Some(9000), ..c };
    assert_eq!(c.port_or_default(), 9000);
}
