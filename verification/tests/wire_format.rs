//! The wrapper's wire form: round trips, rejection of malformed buffers,
//! tamper sensitivity through the codec, the end-to-end outbox scenario, and
//! hexadecimal formatting.

use mpid_messaging::{
    format_binary_array, Address, MpidHeader, MpidMessage, MpidMessageWrapper, PublicKey,
    SecretKey, ADDRESS_SIZE,
};

fn generate_random_bytes(size: usize) -> Vec<u8> {
    (0..size).map(|_| rand::random::<u8>()).collect()
}

fn keypair() -> (PublicKey, SecretKey) {
    sodiumoxide::init().unwrap();
    let (pk, sk) = sodiumoxide::crypto::sign::gen_keypair();
    (
        PublicKey::from_bytes(pk.0.to_vec()).unwrap(),
        SecretKey::from_bytes(sk.0.to_vec()).unwrap(),
    )
}

fn random_address() -> Address {
    Address::from_bytes(generate_random_bytes(ADDRESS_SIZE)).unwrap()
}

fn sample_header(secret_key: &SecretKey) -> MpidHeader {
    MpidHeader::new(random_address(), generate_random_bytes(32), secret_key).unwrap()
}

fn sample_message(secret_key: &SecretKey) -> MpidMessage {
    let header = sample_header(secret_key);
    MpidMessage::new(header, random_address(), generate_random_bytes(128), secret_key).unwrap()
}

fn round_trips(wrapper: MpidMessageWrapper) {
    let encoded = wrapper.encode();
    let decoded = MpidMessageWrapper::decode(&encoded).unwrap();
    assert_eq!(decoded, wrapper);
}

#[test]
fn wrapper_round_trip_every_variant() {
    let (_, secret_key) = keypair();
    round_trips(MpidMessageWrapper::Online);
    round_trips(MpidMessageWrapper::PutMessage(sample_message(&secret_key)));
    round_trips(MpidMessageWrapper::PutHeader(sample_header(&secret_key)));
    round_trips(MpidMessageWrapper::GetMessage(sample_header(&secret_key)));
    round_trips(MpidMessageWrapper::OutboxHas(vec![
        random_address(),
        random_address(),
        random_address(),
    ]));
    round_trips(MpidMessageWrapper::OutboxHas(vec![]));
    round_trips(MpidMessageWrapper::OutboxHasResponse(vec![
        sample_header(&secret_key),
        sample_header(&secret_key),
    ]));
    round_trips(MpidMessageWrapper::GetOutboxHeaders);
    round_trips(MpidMessageWrapper::GetOutboxHeadersResponse(vec![
        sample_header(&secret_key),
    ]));
    round_trips(MpidMessageWrapper::GetOutboxHeadersResponse(vec![]));
}

#[test]
fn decode_rejects_malformed_buffers() {
    // Empty buffer.
    assert!(MpidMessageWrapper::decode(&vec![]).is_none());
    // Unknown tag must fail, never produce a default variant.
    assert!(MpidMessageWrapper::decode(&vec![42u8]).is_none());
    // Trailing bytes after a complete value.
    let mut encoded = MpidMessageWrapper::Online.encode();
    encoded.push(0);
    assert!(MpidMessageWrapper::decode(&encoded).is_none());
    // A truncated payload.
    let (_, secret_key) = keypair();
    let mut encoded = MpidMessageWrapper::PutHeader(sample_header(&secret_key)).encode();
    encoded.pop();
    assert!(MpidMessageWrapper::decode(&encoded).is_none());
}

#[test]
fn tampered_header_fails_verification() {
    let (public_key, secret_key) = keypair();
    let header = sample_header(&secret_key);
    assert!(header.verify(&public_key));
    let encoded = MpidMessageWrapper::PutHeader(header).encode();
    // Wire offsets within the header payload: sender at 1, guid at 33,
    // metadata (after its length prefix) at 53, signature last.
    for index in [1usize, 33, 53, encoded.len() - 1] {
        let mut tampered_bytes = encoded.clone();
        tampered_bytes[index] ^= 0x01;
        match MpidMessageWrapper::decode(&tampered_bytes) {
            Some(MpidMessageWrapper::PutHeader(tampered)) => {
                assert!(!tampered.verify(&public_key));
            }
            Some(_) => panic!("tampering changed the variant"),
            None => panic!("tampering one data byte should still decode"),
        }
    }
}

#[test]
fn tampered_message_fails_verification() {
    let (public_key, secret_key) = keypair();
    let message = sample_message(&secret_key);
    assert!(message.verify(&public_key));
    let encoded = MpidMessageWrapper::PutMessage(message).encode();
    // With 32 bytes of metadata the embedded header occupies bytes 1..149;
    // the recipient follows at 149, the length-prefixed 128-byte body at
    // 181, and the message signature ends the buffer.  The chosen indices
    // fall in the header's signature, the recipient, and the body.
    for index in [117usize, 153, 190, encoded.len() - 1] {
        let mut tampered_bytes = encoded.clone();
        tampered_bytes[index] ^= 0x01;
        match MpidMessageWrapper::decode(&tampered_bytes) {
            Some(MpidMessageWrapper::PutMessage(tampered)) => {
                assert!(!tampered.verify(&public_key));
            }
            Some(_) => panic!("tampering changed the variant"),
            None => panic!("tampering one data byte should still decode"),
        }
    }
}

#[test]
fn outbox_existence_scenario() {
    let (public_key, secret_key) = keypair();

    // The client builds a header with full-size metadata and wraps it.
    let header = MpidHeader::new(random_address(), generate_random_bytes(128), &secret_key)
        .unwrap();
    let put = MpidMessageWrapper::PutHeader(header.clone());
    let sent = put.encode();

    // The manager decodes, verifies and stores it.
    let mut outbox: Vec<MpidHeader> = Vec::new();
    match MpidMessageWrapper::decode(&sent) {
        Some(MpidMessageWrapper::PutHeader(received)) => {
            assert!(received.verify(&public_key));
            outbox.push(received);
        }
        _ => panic!("the stored wrapper should decode as PutHeader"),
    }

    // An existence query for the header's name yields the header.
    let name = header.name().unwrap();
    let query = MpidMessageWrapper::OutboxHas(vec![name.clone()]).encode();
    let queried = match MpidMessageWrapper::decode(&query) {
        Some(MpidMessageWrapper::OutboxHas(addresses)) => addresses,
        _ => panic!("the query should decode as OutboxHas"),
    };
    let present: Vec<MpidHeader> = outbox
        .iter()
        .filter(|stored| queried.contains(&stored.name().unwrap()))
        .cloned()
        .collect();
    let response = MpidMessageWrapper::OutboxHasResponse(present);
    assert_eq!(
        response,
        MpidMessageWrapper::OutboxHasResponse(vec![header])
    );

    // After the entry is removed the same query yields an empty response.
    outbox.clear();
    let present: Vec<MpidHeader> = outbox
        .iter()
        .filter(|stored| queried.contains(&stored.name().unwrap()))
        .cloned()
        .collect();
    assert_eq!(
        MpidMessageWrapper::OutboxHasResponse(present),
        MpidMessageWrapper::OutboxHasResponse(vec![])
    );
}

#[test]
fn format_binary_array_short_input() {
    assert_eq!(format_binary_array(&[1u8, 2, 3]), "010203");
    assert_eq!(format_binary_array(&[1u8, 2, 3, 4, 5, 6]), "010203040506");
    assert_eq!(format_binary_array(&[0xabu8, 0xcd]), "abcd");
    assert_eq!(format_binary_array(&[]), "");
}

#[test]
fn format_binary_array_elides_long_input() {
    let input: Vec<u8> = (1u8..=15).collect();
    assert_eq!(format_binary_array(&input), "010203..0d0e0f");
    assert_eq!(format_binary_array(&[1u8, 2, 3, 4, 5, 6, 7]), "010203..050607");
}
