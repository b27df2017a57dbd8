use keydocs::documents::share_update;
use keydocs::error::{RegistrationError, ShareError};
use keydocs::registry::registration_verdict;
use keydocs::signature::sole_issuer;

fn s(x: &str) -> String {
    x.to_string()
}

#[test]
fn share_update_refuses_a_non_owner() {
    let r = share_update(&s("aa"), &s("bb"), &s("cc"), true, "");
    assert_eq!(r, Err(ShareError::NotOwner));
    let r = share_update(&s("aa"), &s("bb"), &s("cc"), false, "dd");
    assert_eq!(r, Err(ShareError::NotOwner));
}

#[test]
fn share_update_refuses_an_unknown_grantee() {
    let r = share_update(&s("aa"), &s("aa"), &s("cc"), false, "dd");
    assert_eq!(r, Err(ShareError::UnknownGrantee));
}

#[test]
fn share_update_appends_and_is_idempotent() {
    assert_eq!(share_update(&s("aa"), &s("aa"), &s("cc"), true, ""), Ok(s("cc")));
    assert_eq!(share_update(&s("aa"), &s("aa"), &s("cc"), true, "dd"), Ok(s("dd,cc")));
    assert_eq!(share_update(&s("aa"), &s("aa"), &s("cc"), true, "dd,cc"), Ok(s("dd,cc")));
}

#[test]
fn sole_issuer_takes_exactly_one() {
    assert_eq!(sole_issuer(&vec![vec![1u8, 2]]).unwrap(), vec![1u8, 2]);
    match sole_issuer(&vec![vec![0x01u8], vec![0xabu8]]) {
        Err(RegistrationError::AmbiguousIssuer(ids)) => assert_eq!(ids, vec![s("01"), s("ab")]),
        other => panic!("unexpected {:?}", other),
    }
    match sole_issuer(&Vec::new()) {
        Err(RegistrationError::AmbiguousIssuer(ids)) => assert!(ids.is_empty()),
        other => panic!("unexpected {:?}", other),
    }
}

#[test]
fn verdict_accepts_a_self_signed_key() {
    let id = vec![0xdeu8, 0xad, 0xbe, 0xef, 0, 1, 2, 3];
    assert_eq!(registration_verdict(&vec![id.clone()], true, &id).unwrap(), "deadbeef00010203");
}

#[test]
fn verdict_rejects_a_foreign_key_even_with_a_valid_signature() {
    let a = vec![1u8; 8];
    let b = vec![2u8; 8];
    assert!(matches!(
        registration_verdict(&vec![a], true, &b),
        Err(RegistrationError::SignatureInvalid)
    ));
}

#[test]
fn verdict_rejects_an_invalid_signature() {
    let a = vec![1u8; 8];
    assert!(matches!(
        registration_verdict(&vec![a.clone()], false, &a),
        Err(RegistrationError::SignatureInvalid)
    ));
}

#[test]
fn verdict_rejects_two_issuers() {
    let a = vec![1u8; 8];
    assert!(matches!(
        registration_verdict(&vec![a.clone(), a.clone()], true, &a),
        Err(RegistrationError::AmbiguousIssuer(_))
    ));
}
