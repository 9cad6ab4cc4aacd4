//! Decisions of a connection: its lifecycle and what each incoming message
//! leads to. The transport itself performs the I/O that they call for.
use vstd::prelude::*;
use crate::protocol::Message;
use crate::types::QualityConfig;

verus! {

/// Interval between keep-alive messages on a live connection, in milliseconds.
pub const KEEP_ALIVE_INTERVAL_MS: u64 = 5000;

/// Capacity of the channels between the transport's tasks.
pub const CHANNEL_CAPACITY: usize = 32;

/// Where a connection is in its lifecycle.
#[derive(Clone, Copy, Debug, PartialEq, Eq, Structural)]
pub enum ConnectionState {
    Disconnected,
    Connecting,
    Connected,
    Failed,
}

/// What happened to a connection.
#[derive(Clone, Copy, Debug, PartialEq, Eq, Structural)]
pub enum ConnectionEvent {
    /// A handshake attempt began.
    ConnectStarted,
    /// The handshake completed.
    HandshakeSucceeded,
    /// The handshake failed.
    HandshakeFailed,
    /// The peer closed the stream.
    StreamEnded,
    /// Health checks found the live connection failed.
    HealthLost,
    /// The local side shut the connection down.
    Shutdown,
}

/// Errors of the transport.
#[derive(Clone, Copy, Debug, PartialEq, Eq, Structural)]
pub enum TransportError {
    /// A frame or control operation came before the connection was up.
    NotConnected,
    /// The handshake failed.
    ConnectFailed,
    /// The peer closed the stream.
    ConnectionClosed,
}

/// The lifecycle: a handshake starts from `Disconnected` or `Failed`, ends in
/// `Connected` or `Failed`; a live connection ends in `Disconnected` when the
/// stream ends and in `Failed` when its health is lost; a shutdown always
/// leaves `Disconnected`; any other event changes nothing.
pub open spec fn next_state(s: ConnectionState, e: ConnectionEvent) -> ConnectionState {
    match (s, e) {
        (_, ConnectionEvent::Shutdown) => ConnectionState::Disconnected,
        (ConnectionState::Disconnected, ConnectionEvent::ConnectStarted) => ConnectionState::Connecting,
        (ConnectionState::Failed, ConnectionEvent::ConnectStarted) => ConnectionState::Connecting,
        (ConnectionState::Connecting, ConnectionEvent::HandshakeSucceeded) => ConnectionState::Connected,
        (ConnectionState::Connecting, ConnectionEvent::HandshakeFailed) => ConnectionState::Failed,
        (ConnectionState::Connected, ConnectionEvent::StreamEnded) => ConnectionState::Disconnected,
        (ConnectionState::Connected, ConnectionEvent::HealthLost) => ConnectionState::Failed,
        _ => s,
    }
}

impl ConnectionState {
    /// The state after `event`.
    pub fn on_event(self, event: ConnectionEvent) -> (r: ConnectionState)
        ensures
            r == next_state(self, event),
    {
        match (self, event) {
            (_, ConnectionEvent::Shutdown) => ConnectionState::Disconnected,
            (ConnectionState::Disconnected, ConnectionEvent::ConnectStarted) => ConnectionState::Connecting,
            (ConnectionState::Failed, ConnectionEvent::ConnectStarted) => ConnectionState::Connecting,
            (ConnectionState::Connecting, ConnectionEvent::HandshakeSucceeded) => ConnectionState::Connected,
            (ConnectionState::Connecting, ConnectionEvent::HandshakeFailed) => ConnectionState::Failed,
            (ConnectionState::Connected, ConnectionEvent::StreamEnded) => ConnectionState::Disconnected,
            (ConnectionState::Connected, ConnectionEvent::HealthLost) => ConnectionState::Failed,
            _ => self,
        }
    }

    /// A handshake may start only from `Disconnected` or `Failed`.
    pub fn may_connect(self) -> (r: bool)
        ensures
            r == (self == ConnectionState::Disconnected || self == ConnectionState::Failed),
            r ==> next_state(self, ConnectionEvent::ConnectStarted) == ConnectionState::Connecting,
    {
        match self {
            ConnectionState::Disconnected | ConnectionState::Failed => true,
            _ => false,
        }
    }

    /// Frame and control operations need a live connection.
    pub fn ensure_connected(self) -> (r: Result<(), TransportError>)
        ensures
            r is Ok <==> self == ConnectionState::Connected,
            r is Err ==> r == Err::<(), TransportError>(TransportError::NotConnected),
    {
        match self {
            ConnectionState::Connected => Ok(()),
            _ => Err(TransportError::NotConnected),
        }
    }

    /// The error a caller sees for the event that ended an operation, if any.
    pub fn error_of(event: ConnectionEvent) -> (r: Option<TransportError>)
        ensures
            r == match event {
                ConnectionEvent::HandshakeFailed => Some(TransportError::ConnectFailed),
                ConnectionEvent::StreamEnded => Some(TransportError::ConnectionClosed),
                _ => None::<TransportError>,
            },
    {
        match event {
            ConnectionEvent::HandshakeFailed => Some(TransportError::ConnectFailed),
            ConnectionEvent::StreamEnded => Some(TransportError::ConnectionClosed),
            _ => None,
        }
    }
}

/// What the receiving side does with an incoming message.
#[derive(Clone, Debug)]
pub enum Dispatch {
    /// Hand the chunk to the frame channel and send back `FrameAck { frame_id }`.
    ForwardFrame { frame_id: u64, timestamp: u64, data: Vec<u8> },
    /// Note the keep-alive; nothing else.
    KeepAliveSeen,
    /// Raise a quality-updated event with the new settings.
    QualityUpdated(QualityConfig),
    /// Raise an error event with the peer's text.
    PeerError(String),
    /// Nothing to do.
    Ignore,
}

/// Routes an incoming message.
pub fn dispatch(message: Message) -> (r: Dispatch)
    ensures
        match (message, r) {
            (Message::FrameData { frame_id, timestamp, data }, Dispatch::ForwardFrame { frame_id: f, timestamp: t, data: d }) =>
                f == frame_id && t == timestamp && d@ == data@,
            (Message::KeepAlive, Dispatch::KeepAliveSeen) => true,
            (Message::QualityConfig(c), Dispatch::QualityUpdated(c2)) => c2 == c,
            (Message::Error(text), Dispatch::PeerError(t2)) => t2@ == text@,
            (Message::FrameAck { .. }, Dispatch::Ignore) => true,
            _ => false,
        },
{
    match message {
        Message::FrameData { frame_id, timestamp, data } => Dispatch::ForwardFrame { frame_id, timestamp, data },
        Message::KeepAlive => Dispatch::KeepAliveSeen,
        Message::QualityConfig(c) => Dispatch::QualityUpdated(c),
        Message::Error(text) => Dispatch::PeerError(text),
        Message::FrameAck { .. } => Dispatch::Ignore,
    }
}

/// The acknowledgement of frame `frame_id`.
pub fn ack_for(frame_id: u64) -> (r: Message)
    ensures
        r == (Message::FrameAck { frame_id }),
{
    Message::FrameAck { frame_id }
}

} // verus!
