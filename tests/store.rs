use keydocs::documents::{next_document_id, DocumentStore};
use keydocs::registry::Registration;
use keydocs::error::{RegistrationError, ShareError};

fn s(x: &str) -> String {
    x.to_string()
}

fn store_with(ids: &[&str]) -> DocumentStore {
    let mut store = DocumentStore::new();
    for id in ids {
        store.insert_account(s(id), vec![1, 2, 3]).unwrap();
    }
    store
}

#[test]
fn duplicate_account_is_refused() {
    let mut store = store_with(&["aa"]);
    assert!(matches!(
        store.insert_account(s("aa"), vec![9]),
        Err(RegistrationError::DuplicateIdentity)
    ));
    assert!(store.is_registered(&s("aa")));
    assert!(!store.is_registered(&s("bb")));
}

#[test]
fn created_ids_increase() {
    let mut store = store_with(&["aa"]);
    let first = store.create_document(&s("aa"), &s("one")).unwrap();
    let second = store.create_document(&s("aa"), &s("two")).unwrap();
    assert!(first < second);
    assert_eq!(store.shared_with(first).unwrap(), Vec::<String>::new());
}

#[test]
fn unknown_document_is_refused() {
    let mut store = store_with(&["aa", "bb"]);
    let doc = store.create_document(&s("aa"), &s("one")).unwrap();
    assert_eq!(store.share_document(doc + 1, &s("aa"), &s("bb")), Err(ShareError::UnknownDocument));
    assert!(store.shared_with(doc + 1).is_none());
}

#[test]
fn non_owner_is_refused_whatever_the_grantee() {
    let mut store = store_with(&["aa", "bb", "cc"]);
    let doc = store.create_document(&s("aa"), &s("one")).unwrap();
    assert_eq!(store.share_document(doc, &s("bb"), &s("cc")), Err(ShareError::NotOwner));
    assert_eq!(store.share_document(doc, &s("bb"), &s("zz")), Err(ShareError::NotOwner));
    assert_eq!(store.share_document(doc, &s("zz"), &s("bb")), Err(ShareError::NotOwner));
    assert!(store.shared_with(doc).unwrap().is_empty());
}

#[test]
fn sharing_twice_equals_sharing_once() {
    let mut store = store_with(&["aa", "bb"]);
    let doc = store.create_document(&s("aa"), &s("one")).unwrap();
    assert_eq!(store.share_document(doc, &s("aa"), &s("bb")), Ok(()));
    let once = store.shared_with(doc).unwrap();
    assert_eq!(store.share_document(doc, &s("aa"), &s("bb")), Ok(()));
    assert_eq!(store.shared_with(doc).unwrap(), once);
    assert_eq!(once, vec![s("bb")]);
}

#[test]
fn many_grants_to_distinct_identities_all_kept() {
    let mut store = store_with(&["aa", "b1", "b2", "b3", "b4"]);
    let doc = store.create_document(&s("aa"), &s("one")).unwrap();
    for g in ["b1", "b2", "b3", "b4"] {
        assert_eq!(store.share_document(doc, &s("aa"), &s(g)), Ok(()));
    }
    assert_eq!(store.shared_with(doc).unwrap(), vec![s("b1"), s("b2"), s("b3"), s("b4")]);
}

#[test]
fn list_documents_returns_owned_in_order() {
    let mut store = store_with(&["aa", "bb"]);
    let d1 = store.create_document(&s("aa"), &s("notes")).unwrap();
    let d2 = store.create_document(&s("bb"), &s("other")).unwrap();
    let d3 = store.create_document(&s("aa"), &s("notes")).unwrap();
    assert_eq!(store.list_documents(&s("aa")), vec![(d1, s("notes")), (d3, s("notes"))]);
    assert_eq!(store.list_documents(&s("bb")), vec![(d2, s("other"))]);
    assert!(store.list_documents(&s("cc")).is_empty());
}

#[test]
fn next_id_is_generated_or_follows_the_last() {
    assert_eq!(next_document_id(None, 7), Some(7));
    assert_eq!(next_document_id(Some(5), 7), Some(7));
    assert_eq!(next_document_id(Some(9), 7), Some(10));
    assert_eq!(next_document_id(Some(u128::MAX), 7), None);
}

#[test]
fn recorded_refusal_is_handed_back_unchanged() {
    let mut store = store_with(&["aa"]);
    assert!(matches!(
        store.record_registration(Err(RegistrationError::UnsignedMessage)),
        Err(RegistrationError::UnsignedMessage)
    ));
    let reg = Registration { identity: s("bb"), key_material: vec![4] };
    assert_eq!(store.record_registration(Ok(reg)).unwrap(), "bb");
    let again = Registration { identity: s("bb"), key_material: vec![5] };
    assert!(matches!(
        store.record_registration(Ok(again)),
        Err(RegistrationError::DuplicateIdentity)
    ));
}
