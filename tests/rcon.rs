use msrv::model::Error;
use msrv::rcon::{
    auth_packet, build_packet, decode_response, frame_len, i32_from_le, RconMessageType,
    RconOutput, RconSession,
};

#[test]
fn packet_layout_is_exact() {
    let p = build_packet(7, RconMessageType(2), "list".to_string()).unwrap();
    assert_eq!(
        p,
        vec![14, 0, 0, 0, 7, 0, 0, 0, 2, 0, 0, 0, b'l', b'i', b's', b't', 0, 0]
    );
}

#[test]
fn packet_encodes_negative_ids_and_utf8_bodies() {
    let p = build_packet(-1, RconMessageType(0), "é".to_string()).unwrap();
    assert_eq!(
        p,
        vec![12, 0, 0, 0, 0xff, 0xff, 0xff, 0xff, 0, 0, 0, 0, 0xc3, 0xa9, 0, 0]
    );
    let big = build_packet(0x01020304, RconMessageType(3), String::new()).unwrap();
    assert_eq!(&big[..12], &[10, 0, 0, 0, 4, 3, 2, 1, 3, 0, 0, 0]);
}

#[test]
fn auth_packet_has_id_zero_and_type_auth() {
    let p = auth_packet("pw".to_string()).unwrap();
    assert_eq!(p, vec![12, 0, 0, 0, 0, 0, 0, 0, 3, 0, 0, 0, b'p', b'w', 0, 0]);
}

fn auth_response(id: i32, kind: i32) -> [u8; 14] {
    let mut r = [0u8; 14];
    r[0..4].copy_from_slice(&10i32.to_le_bytes());
    r[4..8].copy_from_slice(&id.to_le_bytes());
    r[8..12].copy_from_slice(&kind.to_le_bytes());
    r
}

#[test]
fn accepted_handshake_numbers_commands_from_one() {
    let mut s = RconSession::authenticate(&auth_response(0, 2)).unwrap();
    let first = s.command_packet("say hi".to_string()).unwrap();
    assert_eq!(&first[4..8], &[1, 0, 0, 0]);
    assert_eq!(&first[8..12], &[2, 0, 0, 0]);
    assert_eq!(&first[12..18], b"say hi");
    let second = s.command_packet("list".to_string()).unwrap();
    assert_eq!(&second[4..8], &[2, 0, 0, 0]);
    for k in 3..=300i32 {
        let p = s.command_packet(format!("cmd {}", k)).unwrap();
        assert_eq!(&p[4..8], &k.to_le_bytes());
    }
}

#[test]
fn rejected_handshake_fails_auth() {
    assert!(matches!(
        RconSession::authenticate(&auth_response(-1, 2)),
        Err(Error::AuthFailed)
    ));
    assert!(matches!(
        RconSession::authenticate(&auth_response(0, 0)),
        Err(Error::AuthFailed)
    ));
    assert!(matches!(
        RconSession::authenticate(&auth_response(5, 2)),
        Err(Error::AuthFailed)
    ));
}

#[test]
fn little_endian_words() {
    assert_eq!(i32_from_le(0x78, 0x56, 0x34, 0x12), 0x12345678);
    assert_eq!(i32_from_le(0xff, 0xff, 0xff, 0xff), -1);
    assert_eq!(i32_from_le(0, 0, 0, 0x80), i32::MIN);
    assert_eq!(i32_from_le(0xff, 0xff, 0xff, 0x7f), i32::MAX);
}

#[test]
fn frame_length_needs_the_fixed_fields() {
    assert_eq!(frame_len(&[10, 0, 0, 0]), Ok(10));
    assert_eq!(frame_len(&[0, 1, 0, 0]), Ok(256));
    assert_eq!(frame_len(&[9, 0, 0, 0]), Err(Error::Io));
    assert_eq!(frame_len(&[0xff, 0xff, 0xff, 0xff]), Err(Error::Io));
}

fn frame(payload: &[u8]) -> Vec<u8> {
    let mut f = vec![3, 0, 0, 0, 0, 0, 0, 0];
    f.extend_from_slice(payload);
    f.extend_from_slice(&[0, 0]);
    f
}

#[test]
fn responses_are_classified_by_prefix() {
    match decode_response(&frame(b"There are 0 players")) {
        Ok(RconOutput::CommandResponse(s)) => assert_eq!(s, "There are 0 players"),
        other => panic!("unexpected {:?}", other),
    }
    match decode_response(&frame(b"Error: unknown command")) {
        Ok(RconOutput::Error(s)) => assert_eq!(s, "Error: unknown command"),
        other => panic!("unexpected {:?}", other),
    }
    match decode_response(&frame(b"Erro")) {
        Ok(RconOutput::CommandResponse(s)) => assert_eq!(s, "Erro"),
        other => panic!("unexpected {:?}", other),
    }
    match decode_response(&frame(b"")) {
        Ok(RconOutput::CommandResponse(s)) => assert_eq!(s, ""),
        other => panic!("unexpected {:?}", other),
    }
    match decode_response(&frame("héllo".as_bytes())) {
        Ok(RconOutput::CommandResponse(s)) => assert_eq!(s, "héllo"),
        other => panic!("unexpected {:?}", other),
    }
}

#[test]
fn malformed_responses_fail_with_io() {
    assert!(matches!(decode_response(&vec![0u8; 9]), Err(Error::Io)));
    assert!(matches!(decode_response(&frame(&[0xff, 0xfe])), Err(Error::Io)));
}
