//! Signed messages: decoding, issuer extraction and verification, over the
//! OpenPGP implementation of the `pgp` crate.

use vstd::prelude::*;
use pgp::composed::{Deserializable, Message, SignedPublicKey};
use pgp::packet::Signature;
use pgp::types::KeyDetails;
use crate::error::RegistrationError;
use crate::identity::{hex_text, key_id_to_text};
use crate::sharing::views;

verus! {

#[verifier::external_type_specification]
#[verifier::external_body]
pub struct ExSignature(pgp::packet::Signature);

#[verifier::external_type_specification]
#[verifier::external_body]
pub struct ExSignedPublicKey(pgp::composed::SignedPublicKey);

/// Whether pgp decodes these bytes as a message and reads its content in full.
pub uninterp spec fn message_decodes(b: Seq<u8>) -> bool;

/// Whether the decoded message carries a signature.
pub uninterp spec fn message_signed(b: Seq<u8>) -> bool;

/// The content that the decoded message carries, as signed.
pub uninterp spec fn message_payload(b: Seq<u8>) -> Seq<u8>;

/// The issuer key ids that the message's signature declares.
pub uninterp spec fn message_issuers(b: Seq<u8>) -> Seq<Seq<u8>>;

/// Whether pgp decodes these bytes as a transferable public key.
pub uninterp spec fn key_decodes(p: Seq<u8>) -> bool;

/// The version of the decoded key's primary key.
pub uninterp spec fn key_version(p: Seq<u8>) -> u8;

/// The id of the decoded key's primary key.
pub uninterp spec fn key_id_bytes(p: Seq<u8>) -> Seq<u8>;

/// Whether the signature of message `m` holds over `data` under the key
/// encoded by `p`.
pub uninterp spec fn signature_holds(m: Seq<u8>, p: Seq<u8>, data: Seq<u8>) -> bool;

/// Key versions whose ids pgp derives from a fingerprint (4 and 6). Older
/// versions derive it from an RSA modulus of unchecked length, and version 5
/// is not implemented there.
pub open spec fn supported_version(v: u8) -> bool {
    v == 4 || v == 6
}

/// A payload that registration takes as a key.
pub open spec fn key_accepted(p: Seq<u8>) -> bool {
    key_decodes(p) && supported_version(key_version(p))
}

/// The signature of a message, with the message it came from.
pub struct MessageSignature {
    signature: Signature,
    source: Ghost<Seq<u8>>,
}

impl MessageSignature {
    /// The bytes of the message this signature was read from.
    pub closed spec fn message(&self) -> Seq<u8> {
        self.source@
    }
}

/// A decoded public key, with the bytes it was decoded from.
pub struct PublicKey {
    key: SignedPublicKey,
    source: Ghost<Seq<u8>>,
}

impl PublicKey {
    /// The bytes this key was decoded from.
    pub closed spec fn payload(&self) -> Seq<u8> {
        self.source@
    }
}

/// Relies on pgp's `Message::from_bytes`, `Message::as_data_vec` and the
/// signature readers of a signed and a one-pass signed message. The signature
/// is taken only after the content was read without error, so neither reader
/// is in its error state.
#[verifier::external_body]
fn open_message(bytes: &[u8]) -> (r: Option<(Option<MessageSignature>, Vec<u8>)>)
    ensures
        r is Some <==> message_decodes(bytes@),
        r matches Some((s, d)) ==> d@ == message_payload(bytes@) && (s is Some <==> message_signed(
            bytes@,
        )) && (s matches Some(sig) ==> sig.message() == bytes@),
{
    let mut m = Message::from_bytes(std::io::Cursor::new(bytes.to_vec())).ok()?;
    let data = m.as_data_vec().ok()?;
    let sig = match &m {
        Message::Signed { reader, .. } => Some(reader.signature().clone()),
        Message::SignedOnePass { reader, .. } => reader.signature().cloned(),
        _ => None,
    };
    Some((sig.map(|s| MessageSignature { signature: s, source: Ghost(bytes@) }), data))
}

/// Relies on pgp's `Signature::issuer`: the issuer key ids that the signature
/// declares, each the eight bytes of a `KeyId`.
#[verifier::external_body]
fn signature_issuers(sig: &MessageSignature) -> (r: Vec<Vec<u8>>)
    ensures
        r@.map_values(|k: Vec<u8>| k@) == message_issuers(sig.message()),
        forall|i: int| 0 <= i < r@.len() ==> (#[trigger] r@[i])@.len() == 8,
{
    sig.signature.issuer().iter().map(|k| k.as_ref().to_vec()).collect()
}

/// Relies on pgp's `Deserializable::from_bytes` for `SignedPublicKey`.
#[verifier::external_body]
fn read_public_key(payload: &[u8]) -> (r: Option<PublicKey>)
    ensures
        r is Some <==> key_decodes(payload@),
        r matches Some(k) ==> k.payload() == payload@,
{
    let key = SignedPublicKey::from_bytes(std::io::Cursor::new(payload)).ok()?;
    Some(PublicKey { key, source: Ghost(payload@) })
}

/// Relies on pgp's `KeyDetails::version` of the primary key, as its number.
#[verifier::external_body]
fn public_key_version(key: &PublicKey) -> (r: u8)
    ensures
        r == key_version(key.payload()),
{
    u8::from(key.key.primary_key.version())
}

/// Relies on pgp's `Signature::verify`. It compares the key's id with the
/// issuers, which cannot fail for the versions admitted.
#[verifier::external_body]
fn check_signature(sig: &MessageSignature, key: &PublicKey, data: &[u8]) -> (r: bool)
    requires
        supported_version(key_version(key.payload())),
    ensures
        r == signature_holds(sig.message(), key.payload(), data@),
{
    sig.signature.verify(&key.key, data).is_ok()
}

/// Relies on pgp's `KeyDetails::key_id` for `SignedPublicKey`: for the
/// versions admitted, eight bytes of the primary key's fingerprint.
#[verifier::external_body]
fn public_key_id(key: &PublicKey) -> (r: Vec<u8>)
    requires
        supported_version(key_version(key.payload())),
    ensures
        r@ == key_id_bytes(key.payload()),
        r@.len() == 8,
{
    key.key.key_id().as_ref().to_vec()
}

/// Decodes a signed message into its signature and the exact bytes it signs.
pub fn parse_message(message: &[u8]) -> (r: Result<(MessageSignature, Vec<u8>), RegistrationError>)
    ensures
        !message_decodes(message@) ==> r is Err && r->Err_0 is MalformedMessage,
        message_decodes(message@) && !message_signed(message@) ==> r is Err
            && r->Err_0 is UnsignedMessage,
        message_decodes(message@) && message_signed(message@) ==> r is Ok,
        r matches Ok((s, d)) ==> s.message() == message@ && d@ == message_payload(message@),
{
    match open_message(message) {
        None => Err(RegistrationError::MalformedMessage),
        Some((None, _)) => Err(RegistrationError::UnsignedMessage),
        Some((Some(sig), data)) => Ok((sig, data)),
    }
}

/// The identities of a list of key ids, in order.
pub fn key_ids_to_text(ids: &Vec<Vec<u8>>) -> (r: Vec<String>)
    ensures
        views(r@) == ids@.map_values(|k: Vec<u8>| hex_text(k@)),
{
    let mut out: Vec<String> = Vec::new();
    let mut i: usize = 0;
    while i < ids.len()
        invariant
            i <= ids.len(),
            views(out@) == ids@.subrange(0, i as int).map_values(|k: Vec<u8>| hex_text(k@)),
        decreases ids.len() - i,
    {
        let t = key_id_to_text(ids[i].as_slice());
        let ghost before = out@;
        out.push(t);
        proof {
            assert(views(out@) =~= views(before).push(t@));
            assert(ids@.subrange(0, i + 1).map_values(|k: Vec<u8>| hex_text(k@))
                =~= ids@.subrange(0, i as int).map_values(|k: Vec<u8>| hex_text(k@)).push(t@));
        }
        i += 1;
    }
    proof {
        assert(ids@.subrange(0, ids.len() as int) =~= ids@);
    }
    out
}

/// The one issuer among `issuers`; any other number of them is ambiguous.
pub fn sole_issuer(issuers: &Vec<Vec<u8>>) -> (r: Result<Vec<u8>, RegistrationError>)
    ensures
        r is Ok <==> issuers@.len() == 1,
        r is Ok ==> r->Ok_0@ == issuers@[0]@,
        r is Err ==> (r->Err_0 is AmbiguousIssuer
            && views(r->Err_0->AmbiguousIssuer_0@) == issuers@.map_values(|k: Vec<u8>| hex_text(k@))),
{
    if issuers.len() == 1 {
        Ok(issuers[0].clone())
    } else {
        Err(RegistrationError::AmbiguousIssuer(key_ids_to_text(issuers)))
    }
}

/// The issuer key ids that a message's signature declares.
pub fn issuers_of(sig: &MessageSignature) -> (r: Vec<Vec<u8>>)
    ensures
        r@.map_values(|k: Vec<u8>| k@) == message_issuers(sig.message()),
{
    signature_issuers(sig)
}

/// The key id of the signature's sole issuer.
pub fn message_keyid(sig: &MessageSignature) -> (r: Result<Vec<u8>, RegistrationError>)
    ensures
        r is Ok <==> message_issuers(sig.message()).len() == 1,
        r is Ok ==> r->Ok_0@ == message_issuers(sig.message())[0] && r->Ok_0@.len() == 8,
        r is Err ==> r->Err_0 is AmbiguousIssuer,
{
    let issuers = signature_issuers(sig);
    proof {
        if issuers@.len() == 1 {
            assert(issuers@.map_values(|k: Vec<u8>| k@)[0] == issuers@[0]@);
        }
    }
    sole_issuer(&issuers)
}

/// Checks the signature over `data` against `key`.
pub fn verify_message(signature: &MessageSignature, key: &PublicKey, data: &[u8]) -> (r: Result<(), RegistrationError>)
    requires
        supported_version(key_version(key.payload())),
    ensures
        r is Ok <==> signature_holds(signature.message(), key.payload(), data@),
        r is Err ==> r->Err_0 is SignatureInvalid,
{
    if check_signature(signature, key, data) {
        Ok(())
    } else {
        Err(RegistrationError::SignatureInvalid)
    }
}

/// Decodes the public key that a registration payload declares. Keys of a
/// version other than 4 or 6 are refused.
pub fn parse_public_key(payload: &[u8]) -> (r: Result<PublicKey, RegistrationError>)
    ensures
        r is Ok <==> key_accepted(payload@),
        r is Err ==> r->Err_0 is KeyParseError,
        r matches Ok(k) ==> k.payload() == payload@,
{
    match read_public_key(payload) {
        Some(k) => {
            let v = public_key_version(&k);
            if v == 4 || v == 6 {
                Ok(k)
            } else {
                Err(RegistrationError::KeyParseError)
            }
        },
        None => Err(RegistrationError::KeyParseError),
    }
}

/// The key id of a public key's primary key.
pub fn key_id_of(key: &PublicKey) -> (r: Vec<u8>)
    requires
        supported_version(key_version(key.payload())),
    ensures
        r@ == key_id_bytes(key.payload()),
        r@.len() == 8,
{
    public_key_id(key)
}

} // verus!
