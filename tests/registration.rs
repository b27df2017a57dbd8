use keydocs::documents::DocumentStore;
use keydocs::error::{RegistrationError, ShareError};
use keydocs::identity::key_id_to_text;
use keydocs::registry::parse_create_account;
use keydocs::signature::{message_keyid, parse_message, parse_public_key, verify_message};
use pgp::composed::{KeyType, MessageBuilder, SecretKeyParamsBuilder, SignedSecretKey};
use pgp::crypto::hash::HashAlgorithm;
use pgp::ser::Serialize;
use pgp::types::{KeyDetails, Password};

fn new_key(user: &str) -> SignedSecretKey {
    let mut rng = rand::thread_rng();
    let params = SecretKeyParamsBuilder::default()
        .key_type(KeyType::Ed25519Legacy)
        .can_certify(true)
        .can_sign(true)
        .primary_user_id(user.into())
        .build()
        .unwrap();
    let secret = params.generate(&mut rng).unwrap();
    secret.sign(&mut rng, &Password::empty()).unwrap()
}

fn sign(key: &SignedSecretKey, payload: &[u8]) -> Vec<u8> {
    let mut builder = MessageBuilder::from_bytes("", payload.to_vec());
    builder.sign(&key.primary_key, Password::empty(), HashAlgorithm::Sha256);
    builder.to_vec(rand::thread_rng()).unwrap()
}

fn public_bytes(key: &SignedSecretKey) -> Vec<u8> {
    key.signed_public_key().to_bytes().unwrap()
}

fn registration_message(key: &SignedSecretKey) -> Vec<u8> {
    sign(key, &public_bytes(key))
}

#[test]
fn test_sign_verify() {
    let skey = new_key("Test <test@example.org>");
    let pkey = parse_public_key(&public_bytes(&skey)).unwrap();

    let plaintext = b"hello world";
    let signed_text = sign(&skey, plaintext);

    let (sig, data) = parse_message(&signed_text).unwrap();
    let key_id = message_keyid(&sig).unwrap();

    assert_eq!(key_id, skey.key_id().as_ref().to_vec());
    verify_message(&sig, &pkey, &data).unwrap();

    assert_eq!(data, plaintext);
}

#[test]
fn flipping_any_payload_byte_breaks_the_signature() {
    let skey = new_key("Test <test@example.org>");
    let pkey = parse_public_key(&public_bytes(&skey)).unwrap();
    let (sig, data) = parse_message(&sign(&skey, b"hello world")).unwrap();
    for i in 0..data.len() {
        let mut tampered = data.clone();
        tampered[i] ^= 0x01;
        assert!(matches!(
            verify_message(&sig, &pkey, &tampered),
            Err(RegistrationError::SignatureInvalid)
        ));
    }
    assert!(verify_message(&sig, &pkey, &data).is_ok());
}

#[test]
fn garbage_is_a_malformed_message() {
    assert!(matches!(
        parse_message(b"certainly not an openpgp message"),
        Err(RegistrationError::MalformedMessage)
    ));
    assert!(matches!(
        parse_create_account(&[0xff, 0x00, 0x13]),
        Err(RegistrationError::MalformedMessage)
    ));
}

#[test]
fn self_signed_key_registers_under_its_key_id() {
    let skey = new_key("A <a@example.org>");
    let reg = parse_create_account(&registration_message(&skey)).unwrap();
    assert_eq!(reg.identity, key_id_to_text(skey.key_id().as_ref()));
    assert_eq!(reg.identity.len(), 16);
    assert_eq!(reg.key_material, public_bytes(&skey));
}

#[test]
fn payload_that_is_not_a_key_is_refused() {
    let skey = new_key("A <a@example.org>");
    assert!(matches!(
        parse_create_account(&sign(&skey, b"hello world")),
        Err(RegistrationError::KeyParseError)
    ));
}

#[test]
fn key_signed_by_another_key_is_refused() {
    let a = new_key("A <a@example.org>");
    let b = new_key("B <b@example.org>");
    let message = sign(&a, &public_bytes(&b));
    assert!(matches!(
        parse_create_account(&message),
        Err(RegistrationError::SignatureInvalid)
    ));
}

#[test]
fn registering_twice_is_a_duplicate() {
    let skey = new_key("A <a@example.org>");
    let message = registration_message(&skey);
    let mut store = DocumentStore::new();
    let id = store.register(&message).unwrap();
    assert!(store.is_registered(&id));
    assert!(matches!(store.register(&message), Err(RegistrationError::DuplicateIdentity)));
}

#[test]
fn register_create_share_list_end_to_end() {
    let a = new_key("A <a@example.org>");
    let b = new_key("B <b@example.org>");
    let b_id = key_id_to_text(b.key_id().as_ref());
    let mut store = DocumentStore::new();
    let a_id = store.register(&registration_message(&a)).unwrap();

    let doc = store.create_document(&a_id, &"notes".to_string()).unwrap();
    assert_eq!(store.share_document(doc, &a_id, &b_id), Err(ShareError::UnknownGrantee));
    assert_eq!(store.shared_with(doc).unwrap(), Vec::<String>::new());

    assert_eq!(store.register(&registration_message(&b)).unwrap(), b_id);
    assert_eq!(store.share_document(doc, &a_id, &b_id), Ok(()));
    assert_eq!(store.shared_with(doc).unwrap(), vec![b_id.clone()]);
    assert_eq!(store.share_document(doc, &b_id, &a_id), Err(ShareError::NotOwner));

    assert_eq!(store.list_documents(&a_id), vec![(doc, "notes".to_string())]);
    assert!(store.list_documents(&b_id).is_empty());
}

#[test]
fn payload_key_decodes_and_garbage_does_not() {
    let skey = new_key("A <a@example.org>");
    assert!(parse_public_key(&public_bytes(&skey)).is_ok());
    assert!(matches!(parse_public_key(b"hello world"), Err(RegistrationError::KeyParseError)));
}
