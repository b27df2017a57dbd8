//! The document store: accounts, documents and their sharing lists, with the
//! ownership rules that guard every change.

use vstd::prelude::*;
use crate::identity::{is_canonical_identity, is_identity};
use crate::error::{RegistrationError, ShareError};
use crate::registry::{parse_create_account, registration_accepted, Registration};
use crate::identity::hex_text;
use crate::signature::{key_id_bytes, message_payload};
use crate::sharing::{decode, encode, grant, granted, join, split_list, views};

verus! {

/// A registered identity and the key material it registered with.
pub struct Account {
    pub identity: String,
    pub key_material: Vec<u8>,
}

/// A stored document.
pub struct Document {
    pub doc_id: u128,
    pub name: String,
    pub owner: String,
    pub shared_with: Vec<String>,
}

/// The query of a request for an owner's documents.
pub struct GetDocumentsParams {
    pub key_id: String,
}

impl GetDocumentsParams {
    /// The owner named by the query, if it is a well-formed identity.
    pub fn owner(&self) -> (r: Option<String>)
        ensures
            r is Some <==> is_identity(self.key_id@),
            r is Some ==> r->Some_0@ == self.key_id@,
    {
        if is_canonical_identity(self.key_id.as_str()) {
            Some(self.key_id.clone())
        } else {
            None
        }
    }
}

/// What a document holds, as plain values.
pub ghost struct DocumentView {
    pub doc_id: u128,
    pub name: Seq<char>,
    pub owner: Seq<char>,
    pub shared_with: Seq<Seq<char>>,
}

impl View for Document {
    type V = DocumentView;

    open spec fn view(&self) -> DocumentView {
        DocumentView {
            doc_id: self.doc_id,
            name: self.name@,
            owner: self.owner@,
            shared_with: views(self.shared_with@),
        }
    }
}

/// Accounts and documents. Identities are unique, document ids increase in
/// order of creation, and no sharing list names anyone twice.
pub struct DocumentStore {
    accounts: Vec<Account>,
    documents: Vec<Document>,
}

/// Relies on uuid's `Uuid::now_v7`: a time-ordered identifier, as an integer.
/// It depends on the clock, so nothing is stated of it.
#[verifier::external_body]
fn new_document_id() -> (r: u128) {
    uuid::Uuid::now_v7().as_u128()
}

/// The documents of `docs` that `owner` owns, as id and name, in order.
pub open spec fn owned_by(docs: Seq<DocumentView>, owner: Seq<char>) -> Seq<(u128, Seq<char>)>
    decreases docs.len(),
{
    if docs.len() == 0 {
        seq![]
    } else {
        let rest = owned_by(docs.drop_last(), owner);
        if docs.last().owner == owner {
            rest.push((docs.last().doc_id, docs.last().name))
        } else {
            rest
        }
    }
}

/// The id for a new document, given the last id handed out (if any) and a
/// freshly generated time-ordered one: the generated id when it is larger,
/// else the next id after the last. `None` when no larger id is left.
pub fn next_document_id(last: Option<u128>, generated: u128) -> (r: Option<u128>)
    ensures
        last is None ==> r == Some(generated),
        last matches Some(l) ==> {
            &&& generated > l ==> r == Some(generated)
            &&& generated <= l && l < u128::MAX ==> r == Some((l + 1) as u128)
            &&& generated <= l && l == u128::MAX ==> r is None
        },
{
    match last {
        None => Some(generated),
        Some(l) => {
            if generated > l {
                Some(generated)
            } else if l < u128::MAX {
                Some(l + 1)
            } else {
                None
            }
        },
    }
}

/// Copies a list of strings.
fn copy_list(v: &Vec<String>) -> (r: Vec<String>)
    ensures
        views(r@) == views(v@),
{
    let mut out: Vec<String> = Vec::new();
    let mut i: usize = 0;
    while i < v.len()
        invariant
            i <= v.len(),
            views(out@) == views(v@).subrange(0, i as int),
        decreases v.len() - i,
    {
        let ghost before = out@;
        let s = v[i].clone();
        out.push(s);
        proof {
            assert(views(out@) =~= views(before).push(v@[i as int]@));
            assert(views(v@).subrange(0, i + 1) =~= views(v@).subrange(0, i as int).push(v@[i as int]@));
        }
        i += 1;
    }
    proof {
        assert(views(v@).subrange(0, v.len() as int) =~= views(v@));
    }
    out
}

/// Decides a grant on stored values: the document's owner, whether the
/// grantee has an account, and the stored sharing text. On success, the text
/// to store in its place.
pub fn share_update(
    owner: &String,
    requester: &String,
    grantee: &String,
    grantee_registered: bool,
    shared_with: &str,
) -> (r: Result<String, ShareError>)
    ensures
        owner@ != requester@ ==> r == Err::<String, ShareError>(ShareError::NotOwner),
        owner@ == requester@ && !grantee_registered ==> r == Err::<String, ShareError>(
            ShareError::UnknownGrantee,
        ),
        owner@ == requester@ && grantee_registered ==> (r is Ok && r->Ok_0@ == join(
            granted(split_list(shared_with@), grantee@),
        )),
{
    if *owner != *requester {
        return Err(ShareError::NotOwner);
    }
    if !grantee_registered {
        return Err(ShareError::UnknownGrantee);
    }
    let mut list = decode(shared_with);
    grant(&mut list, grantee);
    Ok(encode(&list))
}

impl DocumentStore {
    pub closed spec fn identities(&self) -> Seq<Seq<char>> {
        self.accounts@.map_values(|a: Account| a.identity@)
    }

    pub closed spec fn key_materials(&self) -> Seq<Seq<u8>> {
        self.accounts@.map_values(|a: Account| a.key_material@)
    }

    pub closed spec fn records(&self) -> Seq<DocumentView> {
        self.documents@.map_values(|d: Document| d@)
    }

    pub open spec fn wf(&self) -> bool {
        &&& self.identities().no_duplicates()
        &&& self.identities().len() == self.key_materials().len()
        &&& forall|i: int, j: int|
            0 <= i < j < self.records().len() ==> self.records()[i].doc_id
                < self.records()[j].doc_id
        &&& forall|i: int|
            0 <= i < self.records().len() ==> (#[trigger] self.records()[i]).shared_with.no_duplicates()
    }

    /// The position of the document with this id, if there is one.
    pub open spec fn index_of(&self, doc_id: u128) -> Option<int> {
        if exists|i: int| 0 <= i < self.records().len() && self.records()[i].doc_id == doc_id {
            Some(choose|i: int| 0 <= i < self.records().len() && self.records()[i].doc_id == doc_id)
        } else {
            None
        }
    }

    /// An empty store.
    pub fn new() -> (r: DocumentStore)
        ensures
            r.wf(),
            r.identities().len() == 0,
            r.records().len() == 0,
    {
        let r = DocumentStore { accounts: Vec::new(), documents: Vec::new() };
        proof {
            assert(r.identities() =~= Seq::<Seq<char>>::empty());
            assert(r.records() =~= Seq::<DocumentView>::empty());
        }
        r
    }

    /// Whether `identity` has an account.
    pub fn is_registered(&self, identity: &String) -> (r: bool)
        ensures
            r == self.identities().contains(identity@),
    {
        let mut i: usize = 0;
        while i < self.accounts.len()
            invariant
                i <= self.accounts@.len(),
                forall|k: int| 0 <= k < i ==> self.identities()[k] != identity@,
            decreases self.accounts.len() - i,
        {
            if self.accounts[i].identity == *identity {
                proof {
                    assert(self.identities()[i as int] == identity@);
                }
                return true;
            }
            i += 1;
        }
        false
    }

    /// Adds an account, unless its identity has one already.
    pub fn insert_account(&mut self, identity: String, key_material: Vec<u8>) -> (r: Result<
        (),
        RegistrationError,
    >)
        requires
            old(self).wf(),
        ensures
            final(self).wf(),
            r is Ok <==> !old(self).identities().contains(identity@),
            r is Err ==> (r->Err_0 is DuplicateIdentity && *final(self) == *old(self)),
            r is Ok ==> final(self).identities() == old(self).identities().push(identity@)
                && final(self).key_materials() == old(self).key_materials().push(key_material@)
                && final(self).records() == old(self).records(),
    {
        if self.is_registered(&identity) {
            return Err(RegistrationError::DuplicateIdentity);
        }
        let ghost before = *self;
        let ghost id = identity@;
        let ghost km = key_material@;
        self.accounts.push(Account { identity, key_material });
        proof {
            assert(self.identities() =~= before.identities().push(id));
            assert(self.key_materials() =~= before.key_materials().push(km));
            assert(self.records() =~= before.records());
        }
        Ok(())
    }

    /// Stores the outcome of checking a registration message: a refusal is
    /// handed back and nothing changes; an accepted registration becomes an
    /// account unless its identity has one already.
    pub fn record_registration(&mut self, outcome: Result<Registration, RegistrationError>) -> (r:
        Result<String, RegistrationError>)
        requires
            old(self).wf(),
        ensures
            final(self).wf(),
            outcome is Err ==> r is Err && r->Err_0 == outcome->Err_0 && *final(self) == *old(self),
            outcome matches Ok(reg) ==> {
                &&& old(self).identities().contains(reg.identity@) ==> r is Err
                    && r->Err_0 is DuplicateIdentity && *final(self) == *old(self)
                &&& !old(self).identities().contains(reg.identity@) ==> r is Ok && r->Ok_0@
                    == reg.identity@ && final(self).identities() == old(self).identities().push(
                    reg.identity@,
                ) && final(self).key_materials() == old(self).key_materials().push(
                    reg.key_material@,
                ) && final(self).records() == old(self).records()
            },
    {
        let reg = match outcome {
            Ok(reg) => reg,
            Err(e) => return Err(e),
        };
        let identity = reg.identity.clone();
        match self.insert_account(reg.identity, reg.key_material) {
            Ok(()) => Ok(identity),
            Err(e) => Err(e),
        }
    }

    /// Registers the key that a self-signed message declares, under the
    /// identity derived from it, with the payload as key material. Nothing
    /// changes unless it succeeds.
    pub fn register(&mut self, message: &[u8]) -> (r: Result<String, RegistrationError>)
        requires
            old(self).wf(),
        ensures
            final(self).wf(),
            r is Err ==> *final(self) == *old(self),
            !registration_accepted(message@) ==> r is Err && !(r->Err_0 is DuplicateIdentity),
            registration_accepted(message@) ==> {
                let id = hex_text(key_id_bytes(message_payload(message@)));
                &&& old(self).identities().contains(id) ==> r is Err && r->Err_0 is DuplicateIdentity
                &&& !old(self).identities().contains(id) ==> r is Ok && r->Ok_0@ == id
                    && final(self).identities() == old(self).identities().push(id)
                    && final(self).key_materials() == old(self).key_materials().push(
                    message_payload(message@),
                ) && final(self).records() == old(self).records()
            },
            r is Ok ==> is_identity(r->Ok_0@),
    {
        let outcome = parse_create_account(message);
        self.record_registration(outcome)
    }

    /// Creates a document owned by `owner` with an empty sharing list, under a
    /// fresh time-ordered id that is larger than every id before it. `None`
    /// only when the id space is spent.
    pub fn create_document(&mut self, owner: &String, name: &String) -> (r: Option<u128>)
        requires
            old(self).wf(),
        ensures
            final(self).wf(),
            r is None ==> *final(self) == *old(self) && old(self).records().len() > 0
                && old(self).records().last().doc_id == u128::MAX,
            final(self).key_materials() == old(self).key_materials(),
            r is Some ==> final(self).identities() == old(self).identities() && final(self).records() == old(self).records().push(
                (DocumentView { doc_id: r->Some_0, name: name@, owner: owner@, shared_with: seq![] }),
            ),
            r is Some ==> forall|i: int|
                0 <= i < old(self).records().len() ==> old(self).records()[i].doc_id < r->Some_0,
    {
        let generated = new_document_id();
        let n = self.documents.len();
        let last = if n == 0 {
            None
        } else {
            Some(self.documents[n - 1].doc_id)
        };
        let doc_id = match next_document_id(last, generated) {
            Some(id) => id,
            None => return None,
        };
        let ghost before = *self;
        let doc = Document {
            doc_id,
            name: name.clone(),
            owner: owner.clone(),
            shared_with: Vec::new(),
        };
        proof {
            assert(views(doc.shared_with@) =~= Seq::<Seq<char>>::empty());
        }
        self.documents.push(doc);
        proof {
            assert(self.records() =~= before.records().push(doc@));
            assert(self.identities() =~= before.identities());
            assert(self.key_materials() =~= before.key_materials());
            if n > 0 {
                assert forall|i: int| 0 <= i < before.records().len() implies before.records()[i].doc_id
                    < doc_id by {
                    if i < n - 1 {
                        assert(before.records()[i].doc_id < before.records()[n - 1].doc_id);
                    }
                }
            }
        }
        Some(doc_id)
    }

    /// The position of the document with this id.
    fn find_document(&self, doc_id: u128) -> (r: Option<usize>)
        requires
            self.wf(),
        ensures
            r is None ==> self.index_of(doc_id) is None,
            r is Some ==> self.index_of(doc_id) == Some(r->Some_0 as int) && r->Some_0
                < self.records().len(),
    {
        let mut i: usize = 0;
        while i < self.documents.len()
            invariant
                self.wf(),
                i <= self.documents@.len(),
                forall|k: int| 0 <= k < i ==> self.records()[k].doc_id != doc_id,
            decreases self.documents.len() - i,
        {
            if self.documents[i].doc_id == doc_id {
                proof {
                    assert(self.records()[i as int].doc_id == doc_id);
                    let j = choose|j: int|
                        0 <= j < self.records().len() && self.records()[j].doc_id == doc_id;
                    if j < i {
                        assert(self.records()[j].doc_id < self.records()[i as int].doc_id);
                    } else if j > i {
                        assert(self.records()[i as int].doc_id < self.records()[j].doc_id);
                    }
                }
                return Some(i);
            }
            i += 1;
        }
        None
    }

    /// Grants `grantee` access to a document on behalf of `requester`. The
    /// document must exist, `requester` must own it and `grantee` must have an
    /// account; the grantee is then added to the sharing list unless already
    /// there. A refused request changes nothing.
    pub fn share_document(&mut self, doc_id: u128, requester: &String, grantee: &String) -> (r:
        Result<(), ShareError>)
        requires
            old(self).wf(),
        ensures
            final(self).wf(),
            final(self).identities() == old(self).identities(),
            final(self).key_materials() == old(self).key_materials(),
            r is Err ==> *final(self) == *old(self),
            old(self).index_of(doc_id) is None ==> r == Err::<(), ShareError>(
                ShareError::UnknownDocument,
            ),
            old(self).index_of(doc_id) matches Some(i) ==> {
                let d = old(self).records()[i];
                &&& d.owner != requester@ ==> r == Err::<(), ShareError>(ShareError::NotOwner)
                &&& d.owner == requester@ && !old(self).identities().contains(grantee@) ==> r
                    == Err::<(), ShareError>(ShareError::UnknownGrantee)
                &&& d.owner == requester@ && old(self).identities().contains(grantee@) ==> r is Ok
                    && final(self).records() == old(self).records().update(
                    i,
                    (DocumentView { shared_with: granted(d.shared_with, grantee@), ..d }),
                )
            },
    {
        let i = match self.find_document(doc_id) {
            Some(i) => i,
            None => return Err(ShareError::UnknownDocument),
        };
        if self.documents[i].owner != *requester {
            return Err(ShareError::NotOwner);
        }
        if !self.is_registered(grantee) {
            return Err(ShareError::UnknownGrantee);
        }
        let ghost before = *self;
        let mut list = copy_list(&self.documents[i].shared_with);
        grant(&mut list, grantee);
        proof {
            crate::sharing::lemma_grant_keeps_list(views(self.documents@[i as int].shared_with@), grantee@);
        }
        let updated = Document {
            doc_id: self.documents[i].doc_id,
            name: self.documents[i].name.clone(),
            owner: self.documents[i].owner.clone(),
            shared_with: list,
        };
        self.documents.set(i, updated);
        proof {
            let d = before.records()[i as int];
            assert(self.records() =~= before.records().update(
                i as int,
                DocumentView { shared_with: granted(d.shared_with, grantee@), ..d },
            ));
            assert(self.identities() =~= before.identities());
            assert(self.key_materials() =~= before.key_materials());
        }
        Ok(())
    }

    /// The sharing list of a document, if it exists.
    pub fn shared_with(&self, doc_id: u128) -> (r: Option<Vec<String>>)
        requires
            self.wf(),
        ensures
            self.index_of(doc_id) is None ==> r is None,
            self.index_of(doc_id) matches Some(i) ==> (r is Some && views(r->Some_0@)
                == self.records()[i].shared_with),
    {
        match self.find_document(doc_id) {
            Some(i) => Some(copy_list(&self.documents[i].shared_with)),
            None => None,
        }
    }

    /// The documents that `owner` owns, as id and name, in order of creation.
    pub fn list_documents(&self, owner: &String) -> (r: Vec<(u128, String)>)
        ensures
            r@.map_values(|p: (u128, String)| (p.0, p.1@)) == owned_by(self.records(), owner@),
    {
        let mut out: Vec<(u128, String)> = Vec::new();
        let mut i: usize = 0;
        while i < self.documents.len()
            invariant
                i <= self.documents@.len(),
                out@.map_values(|p: (u128, String)| (p.0, p.1@)) == owned_by(
                    self.records().subrange(0, i as int),
                    owner@,
                ),
            decreases self.documents.len() - i,
        {
            let ghost before = out@;
            proof {
                assert(self.records().subrange(0, i + 1).drop_last() =~= self.records().subrange(
                    0,
                    i as int,
                ));
            }
            if self.documents[i].owner == *owner {
                out.push((self.documents[i].doc_id, self.documents[i].name.clone()));
                proof {
                    assert(out@.map_values(|p: (u128, String)| (p.0, p.1@)) =~= before.map_values(
                        |p: (u128, String)| (p.0, p.1@),
                    ).push((self.records()[i as int].doc_id, self.records()[i as int].name)));
                }
            }
            i += 1;
        }
        proof {
            assert(self.records().subrange(0, self.documents@.len() as int) =~= self.records());
        }
        out
    }
}

} // verus!
