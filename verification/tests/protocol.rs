use mcping::protocol::{
    build_status_request, decode_status_response, encode_varint, extract_status_json, SlpError,
};

const STATUS_JSON: &str =
    "{\"version\":{\"name\":\"1.20\",\"protocol\":763},\"players\":{\"online\":3,\"max\":20}}";

fn canned_reply(packet_id: u8, json: &str) -> Vec<u8> {
    let body = json.as_bytes();
    let mut packet = vec![packet_id];
    packet.extend(encode_varint(body.len() as u64));
    packet.extend(body);
    let mut framed = encode_varint(packet.len() as u64);
    framed.extend(packet);
    framed
}

#[test]
fn a_valid_reply_decodes_to_its_json() {
    let reply = canned_reply(0x00, STATUS_JSON);
    let value = decode_status_response(&reply).expect("valid reply must decode");
    let name = value
        .get("version")
        .and_then(|v| v.get("name"))
        .and_then(|v| v.as_str());
    assert_eq!(name, Some("1.20"));
    let protocol = value
        .get("version")
        .and_then(|v| v.get("protocol"))
        .and_then(|v| v.as_i64());
    assert_eq!(protocol, Some(763));
    let online = value
        .get("players")
        .and_then(|v| v.get("online"))
        .and_then(|v| v.as_i64());
    assert_eq!(online, Some(3));
    let max = value
        .get("players")
        .and_then(|v| v.get("max"))
        .and_then(|v| v.as_i64());
    assert_eq!(max, Some(20));
}

#[test]
fn a_reply_with_the_wrong_packet_id_is_rejected() {
    let reply = canned_reply(0x01, STATUS_JSON);
    assert_eq!(decode_status_response(&reply), Err(SlpError::UnexpectedPacket));
}

#[test]
fn a_reply_with_broken_json_is_rejected() {
    let reply = canned_reply(0x00, "{\"version\":");
    assert_eq!(decode_status_response(&reply), Err(SlpError::InvalidJson));
}

#[test]
fn a_truncated_reply_is_rejected() {
    let mut reply = canned_reply(0x00, STATUS_JSON);
    reply.truncate(reply.len() - 5);
    assert_eq!(decode_status_response(&reply), Err(SlpError::UnexpectedEof));
}

#[test]
fn an_empty_reply_is_rejected() {
    let reply: Vec<u8> = Vec::new();
    assert_eq!(decode_status_response(&reply), Err(SlpError::UnexpectedEof));
}

#[test]
fn an_oversized_length_field_is_rejected() {
    let reply = vec![0x80u8, 0x80, 0x80, 0x80, 0x80, 0x80];
    assert_eq!(decode_status_response(&reply), Err(SlpError::VarIntTooLarge));
}

#[test]
fn errors_carry_their_causes() {
    assert_eq!(
        SlpError::VarIntTooLarge.describe(),
        "received VarInt is too big"
    );
    assert_eq!(
        SlpError::UnexpectedPacket.describe(),
        "received unexpected response from server"
    );
    assert_eq!(
        SlpError::UnexpectedEof.describe(),
        "connection closed before the full reply arrived"
    );
    assert_eq!(
        SlpError::InvalidJson.describe(),
        "status payload is not valid JSON"
    );
}

#[test]
fn the_json_bytes_come_out_exactly() {
    let reply = canned_reply(0x00, STATUS_JSON);
    let bytes = extract_status_json(&reply).expect("framing is valid");
    assert_eq!(bytes, STATUS_JSON.as_bytes());
}

#[test]
fn invalid_utf8_is_tolerated_in_the_payload() {
    let mut packet = vec![0x00u8];
    let body = [b'"', 0xFF, b'"'];
    packet.extend(encode_varint(body.len() as u64));
    packet.extend(body);
    let mut framed = encode_varint(packet.len() as u64);
    framed.extend(packet);
    assert!(decode_status_response(&framed).is_ok());
}

#[test]
fn bytes_past_the_announced_length_are_ignored() {
    let mut reply = canned_reply(0x00, STATUS_JSON);
    reply.extend([0xAA, 0xBB, 0xCC]);
    let bytes = extract_status_json(&reply).expect("framing is valid");
    assert_eq!(bytes, STATUS_JSON.as_bytes());
    assert!(decode_status_response(&reply).is_ok());
}

#[test]
fn the_handshake_request_has_the_exact_wire_layout() {
    let host: Vec<u8> = b"abc".to_vec();
    let request = build_status_request(&host, 25565);
    let expected = vec![
        9u8, // handshake frame length
        0,   // packet id: handshake
        4,   // protocol version
        3,   // host length
        b'a', b'b', b'c', //
        0xDD, 0x63, // port 25565, little-endian
        1,    // next state: status
        1, 0, // status request frame: length 1, packet id 0
    ];
    assert_eq!(request, expected);
}

#[test]
fn long_host_names_get_multi_byte_length_prefixes() {
    let host: Vec<u8> = vec![b'x'; 200];
    let request = build_status_request(&host, 1);
    assert_eq!(request[0..2], [0xCF, 0x01]); // frame length 207 as a VarInt
    assert_eq!(request[2..4], [0, 4]);
    assert_eq!(request[4..6], [0xC8, 0x01]); // host length 200 as a VarInt
    assert_eq!(request[6..206], vec![b'x'; 200][..]);
    assert_eq!(request[206..208], [1, 0]); // port 1, little-endian
    assert_eq!(request[208], 1); // next state
    assert_eq!(request[209..211], [1, 0]); // status request frame
}
