use absm_client::geometry::{Pair, Rect};
use absm_client::session::{
    handshake_message, setup_message, AbsmSession, Dispatch, LocalBuffer, NetBuffer, ProtocolError,
    ServerInfo,
};
use absm_client::setup::{Config, MouseMove, Remote};
use absm_client::wire::encode_header;

fn screen_res(w: f32, h: f32) -> Vec<u8> {
    let mut v = w.to_bits().to_be_bytes().to_vec();
    v.extend_from_slice(&h.to_bits().to_be_bytes());
    v
}

fn server_info_msg(major: u16, minor: u16, headers: &[(&[u8], &[u8])]) -> Vec<u8> {
    let mut msg = b"sInf".to_vec();
    msg.extend_from_slice(&major.to_be_bytes());
    msg.extend_from_slice(&minor.to_be_bytes());
    for (k, v) in headers {
        encode_header(&mut msg, k, v);
    }
    msg
}

fn config() -> Config {
    let target = Rect { min: Pair([0, 0]), max: Pair([1920, 1080]) };
    Config {
        target,
        source: Rect { min: Pair([500, 500]), max: Pair([9500, 9500]) },
        clip: target,
        correct_device_orientation: false,
        correct_orientation: false,
        keep_aspect_ratio: false,
        pressure_range: [None, None],
        size_range: [None, None],
        remote: Remote::Udp("10.0.0.2".to_string(), 9000),
        android_usb_port: 8517,
        android_attempt_usb_connection: false,
    }
}

fn session() -> AbsmSession {
    let res = screen_res(1920.0, 1080.0);
    let reply = server_info_msg(1, 0, &[(b"screen_res", &res)]);
    AbsmSession::new(config(), &reply).unwrap()
}

#[test]
fn handshake_layout() {
    let msg = handshake_message(b"desktop-rust", 0.25f32.to_bits());
    let mut expected = b"absM".to_vec();
    expected.extend_from_slice(&[0, 1, 0, 0]);
    expected.extend_from_slice(&[0, 0, 0, 11]);
    expected.extend_from_slice(b"client_name");
    expected.extend_from_slice(&[0, 0, 0, 12]);
    expected.extend_from_slice(b"desktop-rust");
    expected.extend_from_slice(&[0, 0, 0, 11]);
    expected.extend_from_slice(b"frame_delay");
    expected.extend_from_slice(&[0, 0, 0, 4, 0x3e, 0x80, 0, 0]);
    assert_eq!(msg, expected);
}

#[test]
fn setup_acknowledgement() {
    assert_eq!(setup_message(), b"setp".to_vec());
}

#[test]
fn server_info_from_message() {
    let res = screen_res(1920.0, 1080.0);
    let msg = server_info_msg(1, 3, &[(b"other", b"x"), (b"screen_res", &res)]);
    let info = ServerInfo::from_message(&msg).unwrap();
    assert_eq!(info.version, (1, 3));
    assert_eq!(info.server_screen_res.0, [1920, 1080]);
}

#[test]
fn later_screen_res_wins() {
    let a = screen_res(100.0, 200.0);
    let b = screen_res(300.0, 400.0);
    let msg = server_info_msg(1, 0, &[(b"screen_res", &a), (b"screen_res", &b)]);
    assert_eq!(ServerInfo::from_message(&msg).unwrap().server_screen_res.0, [300, 400]);
}

#[test]
fn version_gate_refuses_other_major() {
    let res = screen_res(1920.0, 1080.0);
    let reply = server_info_msg(2, 0, &[(b"screen_res", &res)]);
    let err = AbsmSession::new(config(), &reply).unwrap_err();
    assert_eq!(
        err,
        ProtocolError::ProtocolVersionMismatch {
            local_major: 1,
            local_minor: 0,
            remote_major: 2,
            remote_minor: 0,
        }
    );
}

#[test]
fn minor_version_difference_is_tolerated() {
    let res = screen_res(1920.0, 1080.0);
    let reply = server_info_msg(1, 7, &[(b"screen_res", &res)]);
    let s = AbsmSession::new(config(), &reply).unwrap();
    assert_eq!(s.server_info.version, (1, 7));
}

#[test]
fn missing_screen_res_is_refused() {
    let reply = server_info_msg(1, 0, &[(b"other", b"x")]);
    assert_eq!(AbsmSession::new(config(), &reply).unwrap_err(), ProtocolError::MissingCoreField);
}

#[test]
fn malformed_replies_are_refused() {
    let res = screen_res(1920.0, 1080.0);
    let mut wrong_tag = server_info_msg(1, 0, &[(b"screen_res", &res)]);
    wrong_tag[0] = b'x';
    assert_eq!(AbsmSession::new(config(), &wrong_tag).unwrap_err(), ProtocolError::MalformedMessage);
    assert_eq!(AbsmSession::new(config(), b"sInf\0\x01").unwrap_err(), ProtocolError::MalformedMessage);
    let mut truncated = server_info_msg(1, 0, &[(b"screen_res", &res)]);
    truncated.pop();
    assert_eq!(AbsmSession::new(config(), &truncated).unwrap_err(), ProtocolError::MalformedMessage);
    let short_value = server_info_msg(1, 0, &[(b"screen_res", &[0, 0, 0, 0])]);
    assert_eq!(AbsmSession::new(config(), &short_value).unwrap_err(), ProtocolError::MalformedMessage);
    let negative = screen_res(-1.0, 1080.0);
    let bad_value = server_info_msg(1, 0, &[(b"screen_res", &negative)]);
    assert_eq!(AbsmSession::new(config(), &bad_value).unwrap_err(), ProtocolError::MalformedMessage);
}

#[test]
fn unusable_geometry_is_refused() {
    let res = screen_res(0.0, 1080.0);
    let reply = server_info_msg(1, 0, &[(b"screen_res", &res)]);
    assert_eq!(AbsmSession::new(config(), &reply).unwrap_err(), ProtocolError::UnusableGeometry);
}

#[test]
fn session_maps_touches() {
    let s = session();
    let ev = MouseMove { pos: Pair([960, 540]), pressure: 1, size: 1 };
    assert_eq!(s.setup.consume(ev).unwrap().0, [960, 540]);
}

#[test]
fn ping_is_echoed_as_reply() {
    let mut s = session();
    let mut msg = b"ping1234".to_vec();
    assert_eq!(s.consume_message(&mut msg), Ok(Dispatch::Reply));
    assert_eq!(msg, b"repl1234".to_vec());
    let mut bare = b"ping".to_vec();
    assert_eq!(s.consume_message(&mut bare), Ok(Dispatch::Reply));
    assert_eq!(bare, b"repl".to_vec());
}

#[test]
fn messages_are_dispatched_by_tag() {
    let mut s = session();
    let mut t = b"tuch....".to_vec();
    assert_eq!(s.consume_message(&mut t), Ok(Dispatch::Touch));
    assert_eq!(t, b"tuch....".to_vec());
    assert_eq!(s.consume_message(&mut b"keyp".to_vec()), Ok(Dispatch::Key));
    assert_eq!(s.consume_message(&mut b"what?".to_vec()), Ok(Dispatch::Unknown));
    assert_eq!(s.consume_message(&mut b"pin".to_vec()), Err(ProtocolError::MalformedMessage));
}

#[test]
fn server_info_update_is_partial() {
    let mut s = session();
    let mut msg = server_info_msg(1, 2, &[(b"other", b"1")]);
    assert_eq!(s.consume_message(&mut msg), Ok(Dispatch::ServerInfoUpdated));
    assert_eq!(s.server_info.version, (1, 2));
    assert_eq!(s.server_info.server_screen_res.0, [1920, 1080]);
    let res = screen_res(800.0, 600.0);
    let mut msg = server_info_msg(1, 2, &[(b"screen_res", &res)]);
    assert_eq!(s.consume_message(&mut msg), Ok(Dispatch::ServerInfoUpdated));
    assert_eq!(s.server_info.server_screen_res.0, [800, 600]);
    // The setup is not rebuilt.
    let ev = MouseMove { pos: Pair([960, 540]), pressure: 1, size: 1 };
    assert_eq!(s.setup.consume(ev).unwrap().0, [960, 540]);
}

#[test]
fn bad_update_changes_nothing() {
    let mut s = session();
    let mut msg = server_info_msg(3, 0, &[]);
    assert!(matches!(
        s.consume_message(&mut msg),
        Err(ProtocolError::ProtocolVersionMismatch { remote_major: 3, .. })
    ));
    assert_eq!(s.server_info.version, (1, 0));
    let mut info = s.server_info;
    let mut trailing = server_info_msg(1, 5, &[]);
    trailing.push(7);
    assert_eq!(info.update(&trailing), Err(ProtocolError::MalformedMessage));
    assert_eq!(info.version, (1, 0));
}

#[test]
fn net_buffer_is_emptied() {
    let mut b = NetBuffer::new();
    b.borrow().extend_from_slice(b"leftover");
    assert_eq!(b.borrow().len(), 0);
}
