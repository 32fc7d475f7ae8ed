//! Header and message construction, size limits, and signature checking.

use mpid_messaging::{
    Address, Error, MpidHeader, MpidMessage, PublicKey, SecretKey, ADDRESS_SIZE, GUID_SIZE,
    MAX_BODY_SIZE, MAX_HEADER_METADATA_SIZE,
};

fn generate_random_bytes(size: usize) -> Vec<u8> {
    (0..size).map(|_| rand::random::<u8>()).collect()
}

fn keypair() -> (PublicKey, SecretKey) {
    sodiumoxide::init().unwrap();
    let (pk, sk) = sodiumoxide::crypto::sign::gen_keypair();
    (
        PublicKey::from_bytes(pk.0.to_vec()).unwrap(),
        SecretKey::from_bytes(sk.0.to_vec()).unwrap(),
    )
}

fn random_address() -> Address {
    let name = xor_name::XorName(rand::random());
    Address::from_bytes(name.0.to_vec()).unwrap()
}

#[test]
fn mpid_message() {
    let (public_key, secret_key) = keypair();
    let sender = random_address();
    let metadata = generate_random_bytes(128);
    let mpid_header = MpidHeader::new(sender.clone(), metadata.clone(), &secret_key).unwrap();
    let body = generate_random_bytes(1024);
    let receiver = random_address();
    let message_header = MpidHeader::new(sender.clone(), metadata.clone(), &secret_key).unwrap();
    let mpid_message = MpidMessage::new(message_header, receiver, body, &secret_key).unwrap();
    assert!(mpid_message.verify(&public_key));
    assert_eq!(mpid_message.header().sender(), mpid_header.sender());
    assert_eq!(mpid_message.header().metadata(), mpid_header.metadata());
    assert!(mpid_message.header().guid() != mpid_header.guid());
}

#[test]
fn header_metadata_size_limits() {
    let (public_key, secret_key) = keypair();
    let sender = random_address();

    let at_limit = generate_random_bytes(MAX_HEADER_METADATA_SIZE);
    let header = MpidHeader::new(sender.clone(), at_limit.clone(), &secret_key).unwrap();
    assert_eq!(header.metadata(), &at_limit);
    assert_eq!(header.guid().len(), GUID_SIZE);
    assert!(header.verify(&public_key));

    let too_large = generate_random_bytes(MAX_HEADER_METADATA_SIZE + 1);
    let result = MpidHeader::new(sender, too_large, &secret_key);
    assert_eq!(result.unwrap_err(), Error::MetadataTooLarge);
}

#[test]
fn message_body_size_limits() {
    let (public_key, secret_key) = keypair();
    let sender = random_address();
    let recipient = random_address();
    let metadata = generate_random_bytes(16);

    let header = MpidHeader::new(sender.clone(), metadata.clone(), &secret_key).unwrap();
    let at_limit = generate_random_bytes(MAX_BODY_SIZE);
    let message = MpidMessage::new(header, recipient.clone(), at_limit, &secret_key).unwrap();
    assert!(message.verify(&public_key));
    assert_eq!(message.body().len(), MAX_BODY_SIZE);
    assert_eq!(message.recipient(), &recipient);

    let header = MpidHeader::new(sender, metadata, &secret_key).unwrap();
    let too_large = generate_random_bytes(MAX_BODY_SIZE + 1);
    let result = MpidMessage::new(header, recipient, too_large, &secret_key);
    assert_eq!(result.unwrap_err(), Error::BodyTooLarge);
}

#[test]
fn verification_is_sender_sensitive() {
    let (_, secret_key) = keypair();
    let (other_public_key, _) = keypair();
    let sender = random_address();
    let recipient = random_address();

    let header = MpidHeader::new(sender, generate_random_bytes(32), &secret_key).unwrap();
    assert!(!header.verify(&other_public_key));

    let message =
        MpidMessage::new(header, recipient, generate_random_bytes(64), &secret_key).unwrap();
    assert!(!message.verify(&other_public_key));
}

#[test]
fn both_signature_layers_must_hold() {
    let (public_key_a, secret_key_a) = keypair();
    let (public_key_b, secret_key_b) = keypair();
    let sender = random_address();
    let recipient = random_address();
    let metadata = generate_random_bytes(32);
    let body = generate_random_bytes(64);

    // Header signed by A, message detail signed by B: under B's key the
    // message signature is valid but the embedded header's is not, and under
    // A's key the reverse holds.  Both must fail.
    let header_a = MpidHeader::new(sender.clone(), metadata.clone(), &secret_key_a).unwrap();
    let mixed = MpidMessage::new(header_a, recipient.clone(), body.clone(), &secret_key_b).unwrap();
    assert!(!mixed.verify(&public_key_b));
    assert!(!mixed.verify(&public_key_a));

    // Control: both layers under one key verify.
    let header_b = MpidHeader::new(sender, metadata, &secret_key_b).unwrap();
    let aligned = MpidMessage::new(header_b, recipient, body, &secret_key_b).unwrap();
    assert!(aligned.verify(&public_key_b));
}

#[test]
fn fresh_guids_give_fresh_names() {
    let (_, secret_key) = keypair();
    let sender = random_address();
    let metadata = generate_random_bytes(64);

    let first = MpidHeader::new(sender.clone(), metadata.clone(), &secret_key).unwrap();
    let second = MpidHeader::new(sender, metadata, &secret_key).unwrap();
    assert!(first.guid() != second.guid());
    assert!(first.name().unwrap() != second.name().unwrap());
}

#[test]
fn name_is_deterministic() {
    let (_, secret_key) = keypair();
    let sender = random_address();

    let header = MpidHeader::new(sender, generate_random_bytes(8), &secret_key).unwrap();
    let first = header.name().unwrap();
    let second = header.name().unwrap();
    assert_eq!(first, second);
    assert_eq!(first.as_bytes().len(), ADDRESS_SIZE);

    let message = MpidMessage::new(
        header.clone(),
        random_address(),
        generate_random_bytes(8),
        &secret_key,
    )
    .unwrap();
    assert_eq!(message.name().unwrap(), header.name().unwrap());
}

#[test]
fn blob_constructors_check_lengths() {
    assert!(Address::from_bytes(vec![0u8; ADDRESS_SIZE]).is_some());
    assert!(Address::from_bytes(vec![0u8; ADDRESS_SIZE + 1]).is_none());
    assert!(PublicKey::from_bytes(vec![0u8; 31]).is_none());
    assert!(SecretKey::from_bytes(vec![0u8; 63]).is_none());
    assert!(mpid_messaging::Signature::from_bytes(vec![0u8; 64]).is_some());
    assert!(mpid_messaging::Signature::from_bytes(vec![]).is_none());
}
