use sync_client::client::Client;
use sync_client::codec::encode_server;
use sync_client::conn::{Connection, PollOutcome, SendOutcome, Status};
use sync_client::msg::{Pose, RemoteState, ServerMessage};

fn pose(x: f32, y: f32, rot: f32) -> Pose {
    Pose { x_bits: x.to_bits(), y_bits: y.to_bits(), rot_bits: rot.to_bits() }
}

#[test]
fn new_connection_is_disconnected() {
    let c = Connection::new();
    assert!(!c.is_connected());
}

#[test]
fn connect_success_then_failure_swallowed() {
    let mut c = Connection::new();
    c.record_connect(false);
    assert!(!c.is_connected());
    c.record_connect(true);
    assert!(c.is_connected());
}

#[test]
fn poll_no_data_returns_none_immediately() {
    let mut c = Connection::new();
    c.record_connect(true);
    let r = c.on_poll(PollOutcome::NoData);
    assert!(r.is_none());
    assert!(c.is_connected());
}

#[test]
fn poll_channel_down_disconnects() {
    let mut c = Connection::new();
    c.record_connect(true);
    assert!(c.on_poll(PollOutcome::ChannelDown).is_none());
    assert!(!c.is_connected());
}

#[test]
fn send_would_block_keeps_connection() {
    let mut c = Connection::new();
    c.record_connect(true);
    c.on_send(SendOutcome::WouldBlock);
    assert!(c.is_connected());
    c.on_send(SendOutcome::ChannelDown);
    assert!(!c.is_connected());
}

#[test]
fn poll_decodes_one_frame() {
    let mut c = Connection::new();
    c.record_connect(true);
    let frame = encode_server(&ServerMessage::Welcome(12));
    match c.on_poll(PollOutcome::Frame(frame)) {
        Some(ServerMessage::Welcome(id)) => assert_eq!(id, 12),
        other => panic!("expected Welcome, got {:?}", other),
    }
    assert!(c.is_connected());
}

#[test]
fn poll_passes_boundary_decoded_message() {
    let mut c = Connection::new();
    c.record_connect(true);
    match c.on_poll(PollOutcome::Message(ServerMessage::GoodBye(3))) {
        Some(ServerMessage::GoodBye(id)) => assert_eq!(id, 3),
        other => panic!("expected GoodBye, got {:?}", other),
    }
    assert!(c.is_connected());
}

#[test]
fn poll_malformed_outcome_is_discarded() {
    let mut c = Connection::new();
    c.record_connect(true);
    assert!(c.on_poll(PollOutcome::Malformed).is_none());
    assert!(c.is_connected());
}

#[test]
fn drain_applies_boundary_decoded_message() {
    let mut client = Client::new(pose(0.0, 0.0, 0.0));
    client.conn.record_connect(true);
    client.drain(PollOutcome::Message(ServerMessage::Welcome(21)));
    assert_eq!(client.game.local_id(), 21);
    client.drain(PollOutcome::Malformed);
    assert_eq!(client.game.local_id(), 21);
    assert!(client.conn.is_connected());
}

#[test]
fn outbound_state_carries_current_pose() {
    let mut client = Client::new(pose(0.0, 0.0, 0.0));
    let p = pose(3.5, -4.25, 1.0);
    client.set_local_pose(p);
    match client.outbound_state() {
        sync_client::msg::ClientMessage::State { pose } => assert_eq!(pose, p),
        other => panic!("expected State, got {:?}", other),
    }
}

#[test]
fn poll_discards_malformed_frame() {
    let mut c = Connection::new();
    c.record_connect(true);
    let r = c.on_poll(PollOutcome::Frame(vec![42, 42]));
    assert!(r.is_none());
    // A malformed frame aborts that message only, not the connection.
    assert!(c.is_connected());
}

#[test]
fn disconnected_noops() {
    let mut client = Client::new(pose(100.0, 100.0, 0.0));
    client.game.handle_message(ServerMessage::Welcome(4));
    client.game.handle_message(ServerMessage::Update(vec![RemoteState {
        id: 9,
        pose: pose(1.0, 2.0, 3.0),
    }]));
    client.conn.record_connect(true);
    // Force a disconnect.
    client.sent(SendOutcome::ChannelDown);
    assert!(!client.conn.is_connected());
    // send and poll stay callable and change nothing observable.
    let frame = client.submit();
    assert!(!frame.is_empty());
    client.sent(SendOutcome::Delivered);
    let inbound = encode_server(&ServerMessage::Welcome(77));
    client.drain(PollOutcome::Frame(inbound));
    client.drain(PollOutcome::NoData);
    assert_eq!(client.game.local_id(), 4);
    assert_eq!(client.game.remote_actors().len(), 1);
    assert_eq!(client.game.remote_actors()[0].id, 9);
    assert!(!client.conn.is_connected());
}

#[test]
fn drain_applies_wellformed_frame() {
    let mut client = Client::new(pose(0.0, 0.0, 0.0));
    client.conn.record_connect(true);
    let inbound = encode_server(&ServerMessage::Welcome(77));
    client.drain(PollOutcome::Frame(inbound));
    assert_eq!(client.game.local_id(), 77);
}

#[test]
fn submit_encodes_current_pose() {
    let mut client = Client::new(pose(0.0, 0.0, 0.0));
    client.set_local_pose(Pose { x_bits: 0x01020304, y_bits: 0, rot_bits: 0 });
    let frame = client.submit();
    assert_eq!(frame[0], 1);
    assert_eq!(&frame[1..5], &[0x04, 0x03, 0x02, 0x01]);
}

#[test]
fn status_values_are_observable() {
    let c = Connection::new();
    assert_eq!(c.status, Status::Disconnected);
}
