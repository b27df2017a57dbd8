//! Registration: a message whose payload is a public key, signed by that
//! same key, becomes an identity and its key material.

use vstd::prelude::*;
use crate::error::RegistrationError;
use crate::identity::{hex_text, is_identity, key_id_to_text};
use crate::sharing::views;
use crate::signature::{
    issuers_of, key_accepted, key_id_bytes, key_id_of, message_decodes, message_issuers,
    message_payload, message_signed, parse_message, parse_public_key, signature_holds,
    sole_issuer, verify_message,
};

verus! {

/// What a successful registration yields for storage.
pub struct Registration {
    pub identity: String,
    pub key_material: Vec<u8>,
}

/// A registration is accepted exactly when the signature names one issuer,
/// the signature holds, and the signing key is that issuer.
pub open spec fn accepts(issuers: Seq<Seq<u8>>, signature_valid: bool, key_id: Seq<u8>) -> bool {
    issuers.len() == 1 && signature_valid && key_id == issuers[0]
}

/// Decides a registration from what the message says of its signature: its
/// issuers, whether it verified against the payload's key, and that key's id.
/// On acceptance the identity is the key id's canonical text.
pub fn registration_verdict(issuers: &Vec<Vec<u8>>, signature_valid: bool, key_id: &Vec<u8>) -> (r:
    Result<String, RegistrationError>)
    ensures
        r is Ok <==> accepts(issuers@.map_values(|k: Vec<u8>| k@), signature_valid, key_id@),
        r is Ok ==> r->Ok_0@ == hex_text(key_id@),
        issuers@.len() != 1 ==> (r is Err && r->Err_0 is AmbiguousIssuer && views(
            r->Err_0->AmbiguousIssuer_0@,
        ) == issuers@.map_values(|k: Vec<u8>| hex_text(k@))),
        issuers@.len() == 1 && !accepts(issuers@.map_values(|k: Vec<u8>| k@), signature_valid, key_id@)
            ==> (r is Err && r->Err_0 is SignatureInvalid),
{
    let issuer = match sole_issuer(issuers) {
        Ok(i) => i,
        Err(e) => return Err(e),
    };
    if !signature_valid {
        return Err(RegistrationError::SignatureInvalid);
    }
    if !bytes_equal(&issuer, key_id) {
        return Err(RegistrationError::SignatureInvalid);
    }
    Ok(key_id_to_text(key_id.as_slice()))
}

/// Whether two byte strings are the same.
fn bytes_equal(a: &Vec<u8>, b: &Vec<u8>) -> (r: bool)
    ensures
        r == (a@ == b@),
{
    if a.len() != b.len() {
        return false;
    }
    let mut i: usize = 0;
    while i < a.len()
        invariant
            a@.len() == b@.len(),
            i <= a@.len(),
            forall|k: int| 0 <= k < i ==> a@[k] == b@[k],
        decreases a.len() - i,
    {
        if a[i] != b[i] {
            return false;
        }
        i += 1;
    }
    proof {
        assert(a@ =~= b@);
    }
    true
}

/// A message signed by one key over the encoding of a different key is
/// turned down, even when the signature itself is valid.
pub proof fn lemma_foreign_key_rejected(issuer: Seq<u8>, key_id: Seq<u8>)
    requires
        issuer != key_id,
    ensures
        !accepts(seq![issuer], true, key_id),
{
}

/// The stages of registration that come before the issuer check: the bytes
/// decode as a signed message whose payload is an accepted key.
pub open spec fn well_formed_registration(b: Seq<u8>) -> bool {
    message_decodes(b) && message_signed(b) && key_accepted(message_payload(b))
}

/// A registration message is accepted: well formed, with one issuer, a
/// signature that holds under the payload's key, and that key as the issuer.
pub open spec fn registration_accepted(b: Seq<u8>) -> bool {
    well_formed_registration(b) && accepts(
        message_issuers(b),
        signature_holds(b, message_payload(b), message_payload(b)),
        key_id_bytes(message_payload(b)),
    )
}

/// Checks a registration message, in order: it decodes as a signed message,
/// its payload is a public key, its signature names one issuer, verifies
/// against that key, and that key is the issuer. Yields the key's identity
/// and the payload as key material. Nothing is stored.
pub fn parse_create_account(bytes: &[u8]) -> (r: Result<Registration, RegistrationError>)
    ensures
        !message_decodes(bytes@) ==> r is Err && r->Err_0 is MalformedMessage,
        message_decodes(bytes@) && !message_signed(bytes@) ==> r is Err
            && r->Err_0 is UnsignedMessage,
        message_decodes(bytes@) && message_signed(bytes@) && !key_accepted(message_payload(bytes@))
            ==> r is Err && r->Err_0 is KeyParseError,
        well_formed_registration(bytes@) && message_issuers(bytes@).len() != 1 ==> r is Err
            && r->Err_0 is AmbiguousIssuer && views(r->Err_0->AmbiguousIssuer_0@)
            == message_issuers(bytes@).map_values(|k: Seq<u8>| hex_text(k)),
        well_formed_registration(bytes@) && message_issuers(bytes@).len() == 1
            && !registration_accepted(bytes@) ==> r is Err && r->Err_0 is SignatureInvalid,
        r is Ok <==> registration_accepted(bytes@),
        r matches Ok(reg) ==> reg.identity@ == hex_text(key_id_bytes(message_payload(bytes@)))
            && reg.key_material@ == message_payload(bytes@) && is_identity(reg.identity@),
{
    let (signature, payload) = match parse_message(bytes) {
        Ok(p) => p,
        Err(e) => return Err(e),
    };
    let key = match parse_public_key(payload.as_slice()) {
        Ok(k) => k,
        Err(e) => return Err(e),
    };
    let issuers = issuers_of(&signature);
    let ghost ids = issuers@.map_values(|k: Vec<u8>| k@);
    proof {
        assert(issuers@.map_values(|k: Vec<u8>| hex_text(k@)) =~= ids.map_values(
            |k: Seq<u8>| hex_text(k),
        ));
    }
    if let Err(e) = sole_issuer(&issuers) {
        return Err(e);
    }
    let signature_valid = verify_message(&signature, &key, payload.as_slice()).is_ok();
    let key_id = key_id_of(&key);
    let identity = match registration_verdict(&issuers, signature_valid, &key_id) {
        Ok(id) => id,
        Err(e) => return Err(e),
    };
    proof {
        crate::identity::lemma_hex_text_is_identity(key_id@);
    }
    Ok(Registration { identity, key_material: payload })
}

} // verus!
