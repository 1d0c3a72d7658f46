use sync_client::codec::{decode_client, decode_server, encode_client, encode_server};
use sync_client::msg::{ClientMessage, Ipv4, Pose, RemoteState, ServerMessage};

fn pose(x: f32, y: f32, rot: f32) -> Pose {
    Pose { x_bits: x.to_bits(), y_bits: y.to_bits(), rot_bits: rot.to_bits() }
}

#[test]
fn round_trip_register() {
    let m = ClientMessage::Register { ip: Ipv4 { a: 192, b: 168, c: 0, d: 17 } };
    let bytes = encode_client(&m);
    assert_eq!(decode_client(&bytes), Some(m));
}

#[test]
fn round_trip_state() {
    let m = ClientMessage::State { pose: pose(100.5, -3.25, 1.5) };
    let bytes = encode_client(&m);
    assert_eq!(bytes.len(), 13);
    assert_eq!(decode_client(&bytes), Some(m));
}

#[test]
fn round_trip_welcome() {
    let bytes = encode_server(&ServerMessage::Welcome(7));
    match decode_server(&bytes) {
        Some(ServerMessage::Welcome(id)) => assert_eq!(id, 7),
        other => panic!("expected Welcome, got {:?}", other),
    }
}

#[test]
fn round_trip_goodbye() {
    let bytes = encode_server(&ServerMessage::GoodBye(0xdeadbeef));
    match decode_server(&bytes) {
        Some(ServerMessage::GoodBye(id)) => assert_eq!(id, 0xdeadbeef),
        other => panic!("expected GoodBye, got {:?}", other),
    }
}

#[test]
fn round_trip_update_empty() {
    let bytes = encode_server(&ServerMessage::Update(Vec::new()));
    assert_eq!(bytes.len(), 5);
    match decode_server(&bytes) {
        Some(ServerMessage::Update(list)) => assert!(list.is_empty()),
        other => panic!("expected Update, got {:?}", other),
    }
}

#[test]
fn round_trip_update_two() {
    let entries = vec![
        RemoteState { id: 1, pose: pose(0.0, -1.0, 0.5) },
        RemoteState { id: 2, pose: pose(640.0, 480.0, 3.14) },
    ];
    let bytes = encode_server(&ServerMessage::Update(entries.clone()));
    assert_eq!(bytes.len(), 5 + 16 * 2);
    match decode_server(&bytes) {
        Some(ServerMessage::Update(list)) => assert_eq!(list, entries),
        other => panic!("expected Update, got {:?}", other),
    }
}

#[test]
fn welcome_frame_bytes_are_exact() {
    let bytes = encode_server(&ServerMessage::Welcome(7));
    assert_eq!(bytes, vec![0, 7, 0, 0, 0]);
}

#[test]
fn state_frame_bytes_are_little_endian() {
    let m = ClientMessage::State {
        pose: Pose { x_bits: 0x04030201, y_bits: 0, rot_bits: 0xaabbccdd },
    };
    let bytes = encode_client(&m);
    assert_eq!(
        bytes,
        vec![1, 0x01, 0x02, 0x03, 0x04, 0, 0, 0, 0, 0xdd, 0xcc, 0xbb, 0xaa]
    );
}

#[test]
fn decode_rejects_empty_frame() {
    assert_eq!(decode_client(&Vec::new()), None);
    assert!(decode_server(&Vec::new()).is_none());
}

#[test]
fn decode_rejects_unknown_tag() {
    assert_eq!(decode_client(&vec![9, 0, 0, 0, 0]), None);
    assert!(decode_server(&vec![9, 0, 0, 0, 0]).is_none());
}

#[test]
fn decode_rejects_wrong_length() {
    // A Register frame must be exactly 5 bytes.
    assert_eq!(decode_client(&vec![0, 1, 2, 3]), None);
    // A Welcome frame must be exactly 5 bytes.
    assert!(decode_server(&vec![0, 1, 2, 3, 4, 5]).is_none());
    // An Update frame announcing one entry must carry its 16 bytes.
    assert!(decode_server(&vec![2, 1, 0, 0, 0, 1, 2, 3]).is_none());
}
