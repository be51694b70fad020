use vstd::prelude::*;

use crate::config::{applied_password, masked_password, EmailConfig, UpdateEmailConfig};
use crate::crypto::{bcrypt_digest, bcrypt_verifies};
use crate::errors::{NotFoundError, RegisterError, SelectWinnerError};
use crate::notify::{NotificationIntent, NotificationKind};
use crate::offer::{crowned, off_contains_id, off_id_idx, sibling_rows, winner_exists_for};
use crate::offer::{Ledger, Offer};
use crate::request::Catalog;
use crate::supplier::{activated, admitted, contains_id, email_of, has_email, id_idx};
use crate::supplier::{Directory, NewSupplier, Supplier};

verus! {

/// The orchestrator: it owns the three stores and the mail configuration,
/// and bundles each workflow mutation with the notification intents it
/// produces. Intents are returned, not sent: the mutation has committed by
/// the time the caller dispatches them, and a failed delivery never rolls it
/// back.
pub struct Portal {
    pub directory: Directory,
    pub catalog: Catalog,
    pub ledger: Ledger,
    pub mail: EmailConfig,
}

impl Portal {
    pub open spec fn wf(self) -> bool {
        self.directory.wf() && self.catalog.wf() && self.ledger.wf()
    }

    pub fn new(mail: EmailConfig) -> (r: Portal)
        ensures
            r.wf(),
            r.directory.suppliers@ == Seq::<Supplier>::empty(),
            r.catalog.requests@ == Seq::<crate::request::Request>::empty(),
            r.ledger.offers@ == Seq::<Offer>::empty(),
            r.mail == mail,
    {
        Portal { directory: Directory::new(), catalog: Catalog::new(), ledger: Ledger::new(), mail }
    }

    /// Registers a candidate: refused when the email is taken, otherwise
    /// stored inactive with a hashed credential, and a welcome intent is
    /// produced for the candidate's address.
    pub fn register(&mut self, c: &NewSupplier, now: i64) -> (r: Result<
        (Supplier, NotificationIntent),
        RegisterError,
    >)
        requires
            old(self).wf(),
            old(self).directory.next_id < u64::MAX,
        ensures
            final(self).wf(),
            final(self).catalog == old(self).catalog,
            final(self).ledger == old(self).ledger,
            final(self).mail == old(self).mail,
            r is Err ==> *final(self) == *old(self),
            (r matches Err(e) && e == RegisterError::Conflict) <==> has_email(
                old(self).directory.suppliers@,
                c.email@,
            ),
            r matches Ok(p) ==> p.0 == admitted(
                *c,
                p.0.password_hash,
                now,
                old(self).directory.next_id,
            ) && bcrypt_verifies(c.password@, p.0.password_hash@)
                && final(self).directory.suppliers@ == old(self).directory.suppliers@.push(p.0)
                && final(self).directory.next_id == old(self).directory.next_id + 1 && p.1.kind
                == NotificationKind::Welcome && p.1.to == c.email,
    {
        if self.directory.email_taken(&c.email) {
            return Err(RegisterError::Conflict);
        }
        let digest = match bcrypt_digest(&c.password) {
            None => {
                return Err(RegisterError::Hashing);
            },
            Some(d) => d,
        };
        match self.directory.register_hashed(c, digest, now) {
            Err(e) => {
                // the email was checked free just above, so this arm is dead
                proof {
                    assert(false);
                }
                Err(e)
            },
            Ok(s) => {
                let intent = NotificationIntent { to: c.email.clone(), kind: NotificationKind::Welcome };
                Ok((s, intent))
            },
        }
    }

    /// Approves a supplier: sets `active` and produces an approval intent
    /// for its address. Approving an already-active supplier repeats both,
    /// a deliberate idempotence (the notification is re-sent).
    pub fn approve_supplier(&mut self, id: u64) -> (r: Result<
        (Supplier, NotificationIntent),
        NotFoundError,
    >)
        requires
            old(self).wf(),
        ensures
            final(self).wf(),
            final(self).catalog == old(self).catalog,
            final(self).ledger == old(self).ledger,
            final(self).mail == old(self).mail,
            final(self).directory.next_id == old(self).directory.next_id,
            r is Ok <==> contains_id(old(self).directory.suppliers@, id),
            r is Err ==> *final(self) == *old(self),
            r matches Ok(p) ==> ({
                let i = id_idx(old(self).directory.suppliers@, id);
                p.0 == activated(old(self).directory.suppliers@[i])
                    && final(self).directory.suppliers@ == old(self).directory.suppliers@.update(i, p.0)
                    && p.1.kind == NotificationKind::Approved
                    && p.1.to == old(self).directory.suppliers@[i].email
            }),
    {
        match self.directory.approve(id) {
            Err(e) => Err(e),
            Ok(s) => {
                let to = s.email.clone();
                Ok((s, NotificationIntent { to, kind: NotificationKind::Approved }))
            },
        }
    }

    /// Rejects a supplier: the record is deleted outright, and one rejection
    /// intent is produced for the email it held — unless that email was
    /// empty, in which case notification is skipped silently.
    pub fn reject_supplier(&mut self, id: u64) -> (r: Result<
        Option<NotificationIntent>,
        NotFoundError,
    >)
        requires
            old(self).wf(),
        ensures
            final(self).wf(),
            final(self).catalog == old(self).catalog,
            final(self).ledger == old(self).ledger,
            final(self).mail == old(self).mail,
            final(self).directory.next_id == old(self).directory.next_id,
            r is Ok <==> contains_id(old(self).directory.suppliers@, id),
            r is Err ==> *final(self) == *old(self),
            r matches Ok(n) ==> ({
                let i = id_idx(old(self).directory.suppliers@, id);
                final(self).directory.suppliers@ == old(self).directory.suppliers@.remove(i)
                    && (old(self).directory.suppliers@[i].email@.len() == 0 ==> n is None)
                    && (old(self).directory.suppliers@[i].email@.len() > 0 ==> (n matches Some(it)
                    && it.kind == NotificationKind::RegistrationRejected
                    && it.to == old(self).directory.suppliers@[i].email))
            }),
    {
        match self.directory.remove(id) {
            Err(e) => Err(e),
            Ok(s) => {
                let empty = String::new();
                proof {
                    assert(s.email@.len() == 0 ==> s.email@ =~= Seq::<char>::empty());
                }
                if s.email == empty {
                    Ok(None)
                } else {
                    Ok(
                        Some(
                            NotificationIntent {
                                to: s.email,
                                kind: NotificationKind::RegistrationRejected,
                            },
                        ),
                    )
                }
            },
        }
    }

    /// Selects a winning offer. The status change is a compare-and-set: it
    /// fails with a conflict when another offer of the same request already
    /// won, and an unknown id fails with not-found; either way nothing
    /// changes. On success the returned intents carry one winner message for
    /// the selected offer's supplier followed by one request-closed message
    /// per sibling offer, in storage order; a supplier record that is gone
    /// resolves to an empty address.
    pub fn mark_winner(&mut self, offer_id: u64) -> (r: Result<
        (Offer, Vec<NotificationIntent>),
        SelectWinnerError,
    >)
        requires
            old(self).wf(),
        ensures
            final(self).wf(),
            final(self).directory == old(self).directory,
            final(self).catalog == old(self).catalog,
            final(self).mail == old(self).mail,
            final(self).ledger.next_id == old(self).ledger.next_id,
            r is Err ==> *final(self) == *old(self),
            (r matches Err(e) && e == SelectWinnerError::NotFound) <==> !off_contains_id(
                old(self).ledger.offers@,
                offer_id,
            ),
            (r matches Err(e) && e == SelectWinnerError::Conflict) <==> (off_contains_id(
                old(self).ledger.offers@,
                offer_id,
            ) && winner_exists_for(
                old(self).ledger.offers@,
                old(self).ledger.offers@[off_id_idx(old(self).ledger.offers@, offer_id)].request_id,
                offer_id,
            )),
            r matches Ok(p) ==> ({
                let i = off_id_idx(old(self).ledger.offers@, offer_id);
                let t = old(self).ledger.offers@[i];
                let sibs = sibling_rows(old(self).ledger.offers@, t.request_id, offer_id);
                p.0 == crowned(t) && final(self).ledger.offers@ == old(self).ledger.offers@.update(
                    i,
                    p.0,
                ) && p.1@.len() == 1 + sibs.len() && p.1@[0].kind == NotificationKind::Winner
                    && p.1@[0].to@ == email_of(old(self).directory.suppliers@, t.supplier_id) && (
                forall|k: int|
                    0 <= k < sibs.len() ==> p.1@[1 + k].kind == NotificationKind::RequestClosed
                        && p.1@[1 + k].to@ == email_of(
                        old(self).directory.suppliers@,
                        sibs[k].supplier_id,
                    ))
            }),
    {
        let target = match self.ledger.get_offer(offer_id) {
            None => {
                return Err(SelectWinnerError::NotFound);
            },
            Some(t) => t,
        };
        let sibs = self.ledger.siblings(target.request_id, offer_id);
        let won = match self.ledger.mark_winner(offer_id) {
            Err(e) => {
                return Err(e);
            },
            Ok(o) => o,
        };
        let mut intents: Vec<NotificationIntent> = Vec::new();
        let to_winner = self.directory.email_by_id(won.supplier_id);
        intents.push(NotificationIntent { to: to_winner, kind: NotificationKind::Winner });
        let mut k: usize = 0;
        while k < sibs.len()
            invariant
                self.directory.wf(),
                k <= sibs@.len(),
                intents@.len() == 1 + k,
                intents@[0].kind == NotificationKind::Winner,
                intents@[0].to@ == email_of(self.directory.suppliers@, won.supplier_id),
                forall|m: int|
                    0 <= m < k ==> intents@[1 + m].kind == NotificationKind::RequestClosed
                        && intents@[1 + m].to@ == email_of(
                        self.directory.suppliers@,
                        sibs@[m].supplier_id,
                    ),
            decreases sibs@.len() - k,
        {
            let to_sib = self.directory.email_by_id(sibs[k].supplier_id);
            intents.push(NotificationIntent { to: to_sib, kind: NotificationKind::RequestClosed });
            k += 1;
        }
        Ok((won, intents))
    }

    /// The mail configuration as a caller may see it: the stored password
    /// replaced by the placeholder unless empty.
    pub fn get_email_config(&self) -> (r: EmailConfig)
        ensures
            r.smtp_host == self.mail.smtp_host,
            r.smtp_port == self.mail.smtp_port,
            r.smtp_user == self.mail.smtp_user,
            r.smtp_from == self.mail.smtp_from,
            r.smtp_password@ == masked_password(self.mail.smtp_password@),
    {
        self.mail.masked()
    }

    /// Saves a configuration update — a password that is empty or the
    /// placeholder means "leave the stored password unchanged" — and returns
    /// the stored configuration, masked again.
    pub fn save_email_config(&mut self, u: &UpdateEmailConfig) -> (r: EmailConfig)
        requires
            old(self).wf(),
        ensures
            final(self).wf(),
            final(self).directory == old(self).directory,
            final(self).catalog == old(self).catalog,
            final(self).ledger == old(self).ledger,
            final(self).mail.smtp_host == u.smtp_host,
            final(self).mail.smtp_port == u.smtp_port,
            final(self).mail.smtp_user == u.smtp_user,
            final(self).mail.smtp_from == u.smtp_from,
            final(self).mail.smtp_password@ == applied_password(
                old(self).mail.smtp_password@,
                u.smtp_password@,
            ),
            r.smtp_host == u.smtp_host,
            r.smtp_port == u.smtp_port,
            r.smtp_user == u.smtp_user,
            r.smtp_from == u.smtp_from,
            r.smtp_password@ == masked_password(final(self).mail.smtp_password@),
    {
        self.mail.apply_update(u);
        self.mail.masked()
    }

    /// Wipes all three stores; the id counters and the mail configuration
    /// stay.
    pub fn reset_database(&mut self)
        requires
            old(self).wf(),
        ensures
            final(self).wf(),
            final(self).directory.suppliers@ == Seq::<Supplier>::empty(),
            final(self).catalog.requests@ == Seq::<crate::request::Request>::empty(),
            final(self).ledger.offers@ == Seq::<Offer>::empty(),
            final(self).mail == old(self).mail,
    {
        self.directory.suppliers.clear();
        self.catalog.requests.clear();
        self.ledger.offers.clear();
    }
}

} // verus!
