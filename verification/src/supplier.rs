use vstd::prelude::*;

use crate::crypto::{bcrypt_check, bcrypt_verifies};
use crate::errors::{AuthError, NotFoundError};

verus! {

/// Seconds a session claim stays valid after it is issued.
pub const SESSION_VALIDITY_SECS: i64 = 14400;

/// A vendor account. It is created inactive and takes part in procurement
/// only after explicit approval; the three compliance flags are
/// administrative metadata independent of `active`.
#[derive(Debug)]
pub struct Supplier {
    pub id: u64,
    pub name: String,
    pub contact: String,
    pub email: String,
    pub phone: String,
    pub password_hash: String,
    pub created_at: i64,
    pub documents: String,
    pub earnings_count: u64,
    pub active: bool,
    pub is_reviewed: bool,
    pub is_approved: bool,
    pub is_audited: bool,
}

impl Clone for Supplier {
    fn clone(&self) -> (r: Self)
        ensures
            r == *self,
    {
        Supplier {
            id: self.id,
            name: self.name.clone(),
            contact: self.contact.clone(),
            email: self.email.clone(),
            phone: self.phone.clone(),
            password_hash: self.password_hash.clone(),
            created_at: self.created_at,
            documents: self.documents.clone(),
            earnings_count: self.earnings_count,
            active: self.active,
            is_reviewed: self.is_reviewed,
            is_approved: self.is_approved,
            is_audited: self.is_audited,
        }
    }
}

/// A registration candidate; `password` is the plaintext credential, which is
/// stored only as a digest.
#[derive(Debug)]
pub struct NewSupplier {
    pub name: String,
    pub contact: String,
    pub email: String,
    pub phone: String,
    pub password: String,
    pub documents: String,
}

/// Credentials presented on login.
#[derive(Debug)]
pub struct LoginInput {
    pub email: String,
    pub password: String,
}

/// An unconditional overwrite of the three compliance flags.
#[derive(Clone, Copy, Debug, PartialEq, Eq, Structural)]
pub struct ComplianceUpdate {
    pub is_reviewed: bool,
    pub is_approved: bool,
    pub is_audited: bool,
}

/// A replacement for a supplier's document reference blob.
#[derive(Debug)]
pub struct UpdateDocsInput {
    pub documents: String,
}

/// A time-bounded session claim bound to the supplier's email.
#[derive(Debug)]
pub struct SessionClaim {
    pub sub: String,
    pub exp: i64,
}

impl Clone for SessionClaim {
    fn clone(&self) -> (r: Self)
        ensures
            r == *self,
    {
        SessionClaim { sub: self.sub.clone(), exp: self.exp }
    }
}

/// How an authentication attempt is classified.
#[derive(Clone, Copy, Debug, PartialEq, Eq, Structural)]
pub enum AuthOutcome {
    UnknownEmail,
    BadCredential,
    PendingApproval,
    Accepted,
}

pub open spec fn has_email(s: Seq<Supplier>, e: Seq<char>) -> bool {
    exists|i: int| 0 <= i < s.len() && s[i].email@ == e
}

pub open spec fn email_idx(s: Seq<Supplier>, e: Seq<char>) -> int {
    choose|i: int| 0 <= i < s.len() && s[i].email@ == e
}

pub open spec fn contains_id(s: Seq<Supplier>, id: u64) -> bool {
    exists|i: int| 0 <= i < s.len() && s[i].id == id
}

pub open spec fn id_idx(s: Seq<Supplier>, id: u64) -> int {
    choose|i: int| 0 <= i < s.len() && s[i].id == id
}

/// The record stored for candidate `c`: inactive, all compliance flags
/// false, the credential kept only as `digest`.
pub open spec fn admitted(c: NewSupplier, digest: String, now: i64, id: u64) -> Supplier {
    Supplier {
        id: id,
        name: c.name,
        contact: c.contact,
        email: c.email,
        phone: c.phone,
        password_hash: digest,
        created_at: now,
        documents: c.documents,
        earnings_count: 0,
        active: false,
        is_reviewed: false,
        is_approved: false,
        is_audited: false,
    }
}

pub open spec fn activated(s: Supplier) -> Supplier {
    Supplier { active: true, ..s }
}

pub open spec fn with_compliance(s: Supplier, u: ComplianceUpdate) -> Supplier {
    Supplier {
        is_reviewed: u.is_reviewed,
        is_approved: u.is_approved,
        is_audited: u.is_audited,
        ..s
    }
}

pub open spec fn with_documents(s: Supplier, d: String) -> Supplier {
    Supplier { documents: d, ..s }
}

/// The email a supplier id resolves to, or the empty text when the record is
/// gone.
pub open spec fn email_of(s: Seq<Supplier>, sid: u64) -> Seq<char> {
    if contains_id(s, sid) {
        s[id_idx(s, sid)].email@
    } else {
        Seq::empty()
    }
}

/// The suppliers whose `active` flag equals `b`, in storage order.
pub open spec fn active_rows(s: Seq<Supplier>, b: bool) -> Seq<Supplier>
    decreases s.len(),
{
    if s.len() == 0 {
        Seq::empty()
    } else {
        let prefix = active_rows(s.drop_last(), b);
        if s.last().active == b {
            prefix.push(s.last())
        } else {
            prefix
        }
    }
}

/// How a login with the given email and password is classified against the
/// directory contents.
pub open spec fn auth_outcome(s: Seq<Supplier>, email: Seq<char>, plain: Seq<char>) -> AuthOutcome {
    if !has_email(s, email) {
        AuthOutcome::UnknownEmail
    } else if !bcrypt_verifies(plain, s[email_idx(s, email)].password_hash@) {
        AuthOutcome::BadCredential
    } else if !s[email_idx(s, email)].active {
        AuthOutcome::PendingApproval
    } else {
        AuthOutcome::Accepted
    }
}

pub open spec fn outcome_of(r: Result<SessionClaim, AuthError>) -> AuthOutcome {
    match r {
        Ok(_) => AuthOutcome::Accepted,
        Err(AuthError::NotFound) => AuthOutcome::UnknownEmail,
        Err(AuthError::BadCredential) => AuthOutcome::BadCredential,
        Err(AuthError::PendingApproval) => AuthOutcome::PendingApproval,
    }
}

/// The supplier directory: identity, credential verification, and the
/// approval state machine.
pub struct Directory {
    pub suppliers: Vec<Supplier>,
    pub next_id: u64,
}

impl Directory {
    /// Ids are unique and below the id counter, and emails are unique.
    pub open spec fn wf(self) -> bool {
        &&& (forall|i: int, j: int|
            0 <= i < self.suppliers@.len() && 0 <= j < self.suppliers@.len() && i != j
                ==> self.suppliers@[i].id != self.suppliers@[j].id)
        &&& (forall|i: int, j: int|
            0 <= i < self.suppliers@.len() && 0 <= j < self.suppliers@.len() && i != j
                ==> self.suppliers@[i].email@ != self.suppliers@[j].email@)
        &&& (forall|i: int|
            0 <= i < self.suppliers@.len() ==> self.suppliers@[i].id < self.next_id)
        &&& self.next_id >= 1
    }

    pub fn new() -> (r: Directory)
        ensures
            r.wf(),
            r.suppliers@ == Seq::<Supplier>::empty(),
            r.next_id == 1,
    {
        Directory { suppliers: Vec::new(), next_id: 1 }
    }

    fn index_of_email(&self, e: &String) -> (r: Option<usize>)
        ensures
            r matches Some(i) ==> i < self.suppliers@.len() && self.suppliers@[i as int].email@
                == e@,
            r is None ==> !has_email(self.suppliers@, e@),
    {
        let mut i: usize = 0;
        while i < self.suppliers.len()
            invariant
                i <= self.suppliers@.len(),
                forall|k: int| 0 <= k < i ==> self.suppliers@[k].email@ != e@,
            decreases self.suppliers@.len() - i,
        {
            if self.suppliers[i].email == *e {
                return Some(i);
            }
            i += 1;
        }
        None
    }

    fn index_of_id(&self, id: u64) -> (r: Option<usize>)
        ensures
            r matches Some(i) ==> i < self.suppliers@.len() && self.suppliers@[i as int].id == id,
            r is None ==> !contains_id(self.suppliers@, id),
    {
        let mut i: usize = 0;
        while i < self.suppliers.len()
            invariant
                i <= self.suppliers@.len(),
                forall|k: int| 0 <= k < i ==> self.suppliers@[k].id != id,
            decreases self.suppliers@.len() - i,
        {
            if self.suppliers[i].id == id {
                return Some(i);
            }
            i += 1;
        }
        None
    }

    /// With unique ids, any index holding `id` is the chosen one.
    proof fn lemma_id_idx_is(self, id: u64, i: int)
        requires
            self.wf(),
            0 <= i < self.suppliers@.len(),
            self.suppliers@[i].id == id,
        ensures
            id_idx(self.suppliers@, id) == i,
            contains_id(self.suppliers@, id),
    {
        assert(contains_id(self.suppliers@, id));
        let j = id_idx(self.suppliers@, id);
        assert(0 <= j < self.suppliers@.len() && self.suppliers@[j].id == id);
    }

    /// With unique emails, any index holding `e` is the chosen one.
    proof fn lemma_email_idx_is(self, e: Seq<char>, i: int)
        requires
            self.wf(),
            0 <= i < self.suppliers@.len(),
            self.suppliers@[i].email@ == e,
        ensures
            email_idx(self.suppliers@, e) == i,
            has_email(self.suppliers@, e),
    {
        assert(has_email(self.suppliers@, e));
        let j = email_idx(self.suppliers@, e);
        assert(0 <= j < self.suppliers@.len() && self.suppliers@[j].email@ == e);
    }

    /// Whether some supplier is already registered under this email.
    pub fn email_taken(&self, e: &String) -> (r: bool)
        ensures
            r == has_email(self.suppliers@, e@),
    {
        match self.index_of_email(e) {
            Some(_i) => {
                proof {
                    assert(has_email(self.suppliers@, e@));
                }
                true
            },
            None => false,
        }
    }

    /// Stores the candidate with an already-computed credential digest. This
    /// is the whole registration decision: it succeeds exactly when the email
    /// is still free.
    pub fn register_hashed(&mut self, c: &NewSupplier, digest: String, now: i64) -> (r: Result<
        Supplier,
        crate::errors::RegisterError,
    >)
        requires
            old(self).wf(),
            old(self).next_id < u64::MAX,
        ensures
            final(self).wf(),
            r is Ok <==> !has_email(old(self).suppliers@, c.email@),
            r is Err ==> *final(self) == *old(self),
            r is Err ==> (r matches Err(e) && e == crate::errors::RegisterError::Conflict),
            r matches Ok(s) ==> s == admitted(*c, digest, now, old(self).next_id)
                && final(self).suppliers@ == old(self).suppliers@.push(s) && final(self).next_id
                == old(self).next_id + 1,
    {
        match self.index_of_email(&c.email) {
            Some(_taken) => {
                proof {
                    assert(has_email(self.suppliers@, c.email@));
                }
                Err(crate::errors::RegisterError::Conflict)
            },
            None => {
                let id = self.next_id;
                let s = Supplier {
                    id: id,
                    name: c.name.clone(),
                    contact: c.contact.clone(),
                    email: c.email.clone(),
                    phone: c.phone.clone(),
                    password_hash: digest,
                    created_at: now,
                    documents: c.documents.clone(),
                    earnings_count: 0,
                    active: false,
                    is_reviewed: false,
                    is_approved: false,
                    is_audited: false,
                };
                let out = s.clone();
                self.suppliers.push(s);
                self.next_id = id + 1;
                Ok(out)
            },
        }
    }

    /// Classifies the credentials and, when the account is active, issues a
    /// claim bound to the email, valid `SESSION_VALIDITY_SECS` from `now`.
    pub fn login(&self, input: &LoginInput, now: i64) -> (r: Result<SessionClaim, AuthError>)
        requires
            self.wf(),
            now <= i64::MAX - SESSION_VALIDITY_SECS,
        ensures
            outcome_of(r) == auth_outcome(self.suppliers@, input.email@, input.password@),
            r matches Ok(c) ==> c.sub@ == input.email@ && c.exp == now + SESSION_VALIDITY_SECS,
    {
        match self.index_of_email(&input.email) {
            None => Err(AuthError::NotFound),
            Some(i) => {
                proof {
                    self.lemma_email_idx_is(input.email@, i as int);
                }
                let sup = &self.suppliers[i];
                if !bcrypt_check(&input.password, &sup.password_hash) {
                    Err(AuthError::BadCredential)
                } else if !sup.active {
                    Err(AuthError::PendingApproval)
                } else {
                    Ok(SessionClaim { sub: input.email.clone(), exp: now + SESSION_VALIDITY_SECS })
                }
            },
        }
    }

    /// Sets `active`; the mutation is idempotent on an already-active record.
    pub fn approve(&mut self, id: u64) -> (r: Result<Supplier, NotFoundError>)
        requires
            old(self).wf(),
        ensures
            final(self).wf(),
            final(self).next_id == old(self).next_id,
            r is Ok <==> contains_id(old(self).suppliers@, id),
            r is Err ==> *final(self) == *old(self),
            r matches Ok(s) ==> ({
                let i = id_idx(old(self).suppliers@, id);
                s == activated(old(self).suppliers@[i]) && final(self).suppliers@ == old(
                    self,
                ).suppliers@.update(i, s)
            }),
    {
        match self.index_of_id(id) {
            None => Err(NotFoundError),
            Some(i) => {
                proof {
                    self.lemma_id_idx_is(id, i as int);
                }
                let who = &mut self.suppliers[i];
                who.active = true;
                let out = self.suppliers[i].clone();
                Ok(out)
            },
        }
    }

    /// Deletes the record outright, returning what was removed.
    pub fn remove(&mut self, id: u64) -> (r: Result<Supplier, NotFoundError>)
        requires
            old(self).wf(),
        ensures
            final(self).wf(),
            final(self).next_id == old(self).next_id,
            r is Ok <==> contains_id(old(self).suppliers@, id),
            r is Err ==> *final(self) == *old(self),
            r matches Ok(s) ==> ({
                let i = id_idx(old(self).suppliers@, id);
                s == old(self).suppliers@[i] && final(self).suppliers@ == old(
                    self,
                ).suppliers@.remove(i)
            }),
    {
        match self.index_of_id(id) {
            None => Err(NotFoundError),
            Some(i) => {
                proof {
                    self.lemma_id_idx_is(id, i as int);
                    old(self).suppliers@.remove_ensures(i as int);
                }
                let s = self.suppliers.remove(i);
                Ok(s)
            },
        }
    }

    /// Overwrites the three compliance flags, independent of `active`.
    pub fn update_compliance(&mut self, id: u64, u: &ComplianceUpdate) -> (r: Result<
        Supplier,
        NotFoundError,
    >)
        requires
            old(self).wf(),
        ensures
            final(self).wf(),
            final(self).next_id == old(self).next_id,
            r is Ok <==> contains_id(old(self).suppliers@, id),
            r is Err ==> *final(self) == *old(self),
            r matches Ok(s) ==> ({
                let i = id_idx(old(self).suppliers@, id);
                s == with_compliance(old(self).suppliers@[i], *u) && final(self).suppliers@ == old(
                    self,
                ).suppliers@.update(i, s)
            }),
    {
        match self.index_of_id(id) {
            None => Err(NotFoundError),
            Some(i) => {
                proof {
                    self.lemma_id_idx_is(id, i as int);
                }
                let who = &mut self.suppliers[i];
                who.is_reviewed = u.is_reviewed;
                who.is_approved = u.is_approved;
                who.is_audited = u.is_audited;
                let out = self.suppliers[i].clone();
                Ok(out)
            },
        }
    }

    /// Replaces the document reference blob.
    pub fn update_docs(&mut self, id: u64, input: &UpdateDocsInput) -> (r: Result<
        (),
        NotFoundError,
    >)
        requires
            old(self).wf(),
        ensures
            final(self).wf(),
            final(self).next_id == old(self).next_id,
            r is Ok <==> contains_id(old(self).suppliers@, id),
            r is Err ==> *final(self) == *old(self),
            r is Ok ==> ({
                let i = id_idx(old(self).suppliers@, id);
                final(self).suppliers@ == old(self).suppliers@.update(
                    i,
                    with_documents(old(self).suppliers@[i], input.documents),
                )
            }),
    {
        match self.index_of_id(id) {
            None => Err(NotFoundError),
            Some(i) => {
                proof {
                    self.lemma_id_idx_is(id, i as int);
                }
                let who = &mut self.suppliers[i];
                who.documents = input.documents.clone();
                Ok(())
            },
        }
    }

    /// A copy of the record `id` resolves to.
    pub fn get_supplier(&self, id: u64) -> (r: Result<Supplier, NotFoundError>)
        requires
            self.wf(),
        ensures
            r is Ok <==> contains_id(self.suppliers@, id),
            r matches Ok(s) ==> s == self.suppliers@[id_idx(self.suppliers@, id)],
    {
        match self.index_of_id(id) {
            None => Err(NotFoundError),
            Some(i) => {
                proof {
                    self.lemma_id_idx_is(id, i as int);
                }
                Ok(self.suppliers[i].clone())
            },
        }
    }

    /// The email `sid` resolves to, or the empty string if the record is
    /// gone (a notification to it is then skipped).
    pub fn email_by_id(&self, sid: u64) -> (r: String)
        requires
            self.wf(),
        ensures
            r@ == email_of(self.suppliers@, sid),
    {
        match self.index_of_id(sid) {
            None => String::new(),
            Some(i) => {
                proof {
                    self.lemma_id_idx_is(sid, i as int);
                }
                self.suppliers[i].email.clone()
            },
        }
    }

    fn list_by_active(&self, b: bool) -> (r: Vec<Supplier>)
        ensures
            r@ == active_rows(self.suppliers@, b),
    {
        let mut out: Vec<Supplier> = Vec::new();
        let mut i: usize = 0;
        while i < self.suppliers.len()
            invariant
                i <= self.suppliers@.len(),
                out@ == active_rows(self.suppliers@.take(i as int), b),
            decreases self.suppliers@.len() - i,
        {
            proof {
                assert(self.suppliers@.take(i + 1).drop_last() =~= self.suppliers@.take(i as int));
                assert(self.suppliers@.take(i + 1).last() == self.suppliers@[i as int]);
            }
            if self.suppliers[i].active == b {
                out.push(self.suppliers[i].clone());
            }
            i += 1;
        }
        proof {
            assert(self.suppliers@.take(self.suppliers@.len() as int) =~= self.suppliers@);
        }
        out
    }

    /// The suppliers still awaiting approval, in storage order.
    pub fn list_pending_suppliers(&self) -> (r: Vec<Supplier>)
        ensures
            r@ == active_rows(self.suppliers@, false),
    {
        self.list_by_active(false)
    }

    /// The approved suppliers, in storage order.
    pub fn list_approved_suppliers(&self) -> (r: Vec<Supplier>)
        ensures
            r@ == active_rows(self.suppliers@, true),
    {
        self.list_by_active(true)
    }
}

/// Law: once a supplier is registered, every later registration under the
/// same email finds it taken (and so conflicts), while the records already
/// stored are untouched by the first registration.
pub proof fn lemma_duplicate_email_conflicts(
    s: Seq<Supplier>,
    c: NewSupplier,
    digest: String,
    now: i64,
    id: u64,
    other_email: Seq<char>,
)
    requires
        other_email == c.email@,
    ensures
        has_email(s.push(admitted(c, digest, now, id)), other_email),
        forall|k: int| 0 <= k < s.len() ==> s.push(admitted(c, digest, now, id))[k] == s[k],
{
    let s1 = s.push(admitted(c, digest, now, id));
    assert(s1[s.len() as int].email@ == other_email);
}

/// Law: a freshly registered supplier presenting the correct password is
/// still refused as pending, and is accepted once (and only through) the
/// approval of its record.
pub proof fn lemma_pending_until_approved(
    s: Seq<Supplier>,
    c: NewSupplier,
    digest: String,
    now: i64,
    id: u64,
    plain: Seq<char>,
)
    requires
        !has_email(s, c.email@),
    ensures
        bcrypt_verifies(plain, digest@) ==> auth_outcome(
            s.push(admitted(c, digest, now, id)),
            c.email@,
            plain,
        ) == AuthOutcome::PendingApproval,
        bcrypt_verifies(plain, digest@) ==> auth_outcome(
            s.push(admitted(c, digest, now, id)).update(
                s.len() as int,
                activated(admitted(c, digest, now, id)),
            ),
            c.email@,
            plain,
        ) == AuthOutcome::Accepted,
{
    let row = admitted(c, digest, now, id);
    let s1 = s.push(row);
    let n = s.len() as int;
    assert(s1[n].email@ == c.email@);
    assert(has_email(s1, c.email@));
    let j = email_idx(s1, c.email@);
    assert(0 <= j < s1.len() && s1[j].email@ == c.email@);
    assert(j == n);
    let s2 = s1.update(n, activated(row));
    assert(s2[n].email@ == c.email@);
    assert(has_email(s2, c.email@));
    let j2 = email_idx(s2, c.email@);
    assert(0 <= j2 < s2.len() && s2[j2].email@ == c.email@);
    assert(j2 == n);
}

/// Law: after a rejection removes the record, the id no longer resolves.
pub proof fn lemma_rejected_supplier_gone(d: Directory, id: u64)
    requires
        d.wf(),
        contains_id(d.suppliers@, id),
    ensures
        !contains_id(d.suppliers@.remove(id_idx(d.suppliers@, id)), id),
{
    let s = d.suppliers@;
    let i = id_idx(s, id);
    assert(0 <= i < s.len() && s[i].id == id);
    s.remove_ensures(i);
    let s1 = s.remove(i);
    assert forall|k: int| 0 <= k < s1.len() implies s1[k].id != id by {
        if k < i {
            assert(s1[k] == s[k]);
        } else {
            assert(s1[k] == s[k + 1]);
        }
    }
}

} // verus!
