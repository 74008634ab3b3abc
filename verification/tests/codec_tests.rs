use asn_net::{deserialize_message, serialize_message, ProtocolError, WireMessage};

fn request(name: &str, message: &str) -> WireMessage {
    WireMessage::Request {
        agent_name: name.as_bytes().to_vec(),
        message: message.as_bytes().to_vec(),
    }
}

#[test]
fn request_exact_bytes() {
    let bytes = serialize_message(&request("ab", "c")).unwrap();
    assert_eq!(
        bytes,
        vec![1u8, 0, 0, 0, 2, b'a', b'b', 0, 0, 0, 1, b'c']
    );
}

#[test]
fn response_exact_bytes() {
    let bytes = serialize_message(&WireMessage::Response { body: vec![0x48, 0x69] }).unwrap();
    assert_eq!(bytes, vec![2u8, 0, 0, 0, 2, 0x48, 0x69]);
}

#[test]
fn request_round_trip() {
    let m = request("weather", "London?");
    let bytes = serialize_message(&m).unwrap();
    let back = deserialize_message(&bytes).unwrap();
    assert_eq!(back, m);
}

#[test]
fn response_round_trip() {
    let m = WireMessage::Response { body: vec![0, 1, 2, 255, 17] };
    let bytes = serialize_message(&m).unwrap();
    let back = deserialize_message(&bytes).unwrap();
    assert_eq!(back, m);
}

#[test]
fn empty_fields_round_trip() {
    let m = request("", "");
    let bytes = serialize_message(&m).unwrap();
    assert_eq!(bytes, vec![1u8, 0, 0, 0, 0, 0, 0, 0, 0]);
    assert_eq!(deserialize_message(&bytes).unwrap(), m);

    let m = WireMessage::Response { body: vec![] };
    let bytes = serialize_message(&m).unwrap();
    assert_eq!(bytes, vec![2u8, 0, 0, 0, 0]);
    assert_eq!(deserialize_message(&bytes).unwrap(), m);
}

#[test]
fn decode_rejects_empty() {
    assert_eq!(deserialize_message(&vec![]), Err(ProtocolError::InvalidFormat));
}

#[test]
fn decode_rejects_unknown_tag() {
    assert_eq!(
        deserialize_message(&vec![3u8, 0, 0, 0, 0]),
        Err(ProtocolError::InvalidFormat)
    );
}

#[test]
fn decode_rejects_truncated_header() {
    assert_eq!(
        deserialize_message(&vec![1u8, 0, 0]),
        Err(ProtocolError::InvalidFormat)
    );
    assert_eq!(
        deserialize_message(&vec![2u8, 0, 0, 0]),
        Err(ProtocolError::InvalidFormat)
    );
}

#[test]
fn decode_rejects_short_field() {
    // claims a 5-byte name but carries only 2 bytes after the header
    assert_eq!(
        deserialize_message(&vec![1u8, 0, 0, 0, 5, b'a', b'b']),
        Err(ProtocolError::InvalidFormat)
    );
    // claims a 3-byte body but carries 2
    assert_eq!(
        deserialize_message(&vec![2u8, 0, 0, 0, 3, 1, 2]),
        Err(ProtocolError::InvalidFormat)
    );
}

#[test]
fn decode_rejects_trailing_bytes() {
    let mut bytes = serialize_message(&request("a", "b")).unwrap();
    bytes.push(0);
    assert_eq!(deserialize_message(&bytes), Err(ProtocolError::InvalidFormat));

    let mut bytes = serialize_message(&WireMessage::Response { body: vec![9] }).unwrap();
    bytes.push(0);
    assert_eq!(deserialize_message(&bytes), Err(ProtocolError::InvalidFormat));
}

#[test]
fn binary_payload_survives() {
    let m = WireMessage::Request {
        agent_name: vec![0, 255, 1, 254],
        message: vec![1u8; 1000],
    };
    let bytes = serialize_message(&m).unwrap();
    assert_eq!(deserialize_message(&bytes).unwrap(), m);
}
