use asn_net::{decimal_digits, gossip_message_id, hash_payload};

#[test]
fn hash_known_vectors() {
    // 64-bit FNV-1a reference values
    assert_eq!(hash_payload(&vec![]), 14695981039346656037);
    assert_eq!(hash_payload(&b"a".to_vec()), 12638187200555641996);
    assert_eq!(hash_payload(&b"hello".to_vec()), 11831194018420276491);
    assert_eq!(hash_payload(&b"foobar".to_vec()), 9625390261332436968);
}

#[test]
fn decimal_rendering() {
    assert_eq!(decimal_digits(0), b"0".to_vec());
    assert_eq!(decimal_digits(7), b"7".to_vec());
    assert_eq!(decimal_digits(10), b"10".to_vec());
    assert_eq!(decimal_digits(1234567890), b"1234567890".to_vec());
    assert_eq!(decimal_digits(u64::MAX), b"18446744073709551615".to_vec());
}

#[test]
fn message_id_is_decimal_of_hash() {
    let id = gossip_message_id(&b"hello".to_vec());
    assert_eq!(id, b"11831194018420276491".to_vec());
}

#[test]
fn message_id_depends_on_payload_alone() {
    // two receivers deriving the id of the same payload agree, so the
    // history window can suppress the duplicate
    let a = gossip_message_id(&b"news: hello".to_vec());
    let b = gossip_message_id(&b"news: hello".to_vec());
    assert_eq!(a, b);
    let c = gossip_message_id(&b"news: hello!".to_vec());
    assert_ne!(a, c);
}
