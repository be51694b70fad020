use vstd::prelude::*;

use crate::errors::SelectWinnerError;

verus! {

/// The lifecycle state of an offer. Selecting a winner sets `Winning` on the
/// chosen offer; its siblings keep their state and are only notified, so a
/// closed request's losing offers still read `Pending` (a deliberate choice,
/// recorded here: status answers "was this offer picked", not "is the
/// request still open").
#[derive(Clone, Copy, Debug, PartialEq, Eq, Structural)]
pub enum OfferStatus {
    Pending,
    Winning,
    Rejected,
}

/// A supplier's bid against a request. The price is kept in cents to stay
/// exact.
#[derive(Debug)]
pub struct Offer {
    pub id: u64,
    pub supplier_id: u64,
    pub request_id: u64,
    pub price_cents: u64,
    pub delivery_time: String,
    pub conditions: String,
    pub attachments: String,
    pub photo: Option<String>,
    pub status: OfferStatus,
    pub created_at: i64,
}

impl Clone for Offer {
    fn clone(&self) -> (r: Self)
        ensures
            r == *self,
    {
        Offer {
            id: self.id,
            supplier_id: self.supplier_id,
            request_id: self.request_id,
            price_cents: self.price_cents,
            delivery_time: self.delivery_time.clone(),
            conditions: self.conditions.clone(),
            attachments: self.attachments.clone(),
            photo: match &self.photo {
                Some(p) => Some(p.clone()),
                None => None,
            },
            status: self.status,
            created_at: self.created_at,
        }
    }
}

/// A submission; the ledger assigns id, status and creation time.
#[derive(Debug)]
pub struct NewOffer {
    pub supplier_id: u64,
    pub request_id: u64,
    pub price_cents: u64,
    pub delivery_time: String,
    pub conditions: String,
    pub attachments: String,
    pub photo: Option<String>,
}

pub open spec fn off_contains_id(os: Seq<Offer>, id: u64) -> bool {
    exists|i: int| 0 <= i < os.len() && os[i].id == id
}

pub open spec fn off_id_idx(os: Seq<Offer>, id: u64) -> int {
    choose|i: int| 0 <= i < os.len() && os[i].id == id
}

/// The row a submission becomes.
pub open spec fn submitted_row(n: NewOffer, now: i64, id: u64) -> Offer {
    Offer {
        id: id,
        supplier_id: n.supplier_id,
        request_id: n.request_id,
        price_cents: n.price_cents,
        delivery_time: n.delivery_time,
        conditions: n.conditions,
        attachments: n.attachments,
        photo: n.photo,
        status: OfferStatus::Pending,
        created_at: now,
    }
}

/// The same offer, crowned.
pub open spec fn crowned(o: Offer) -> Offer {
    Offer { status: OfferStatus::Winning, ..o }
}

/// Whether some offer other than `excl` already holds the winning status for
/// request `rid`.
pub open spec fn winner_exists_for(os: Seq<Offer>, rid: u64, excl: u64) -> bool {
    exists|j: int|
        0 <= j < os.len() && os[j].id != excl && os[j].request_id == rid && os[j].status
            == OfferStatus::Winning
}

/// The offers of request `rid`, in storage order.
pub open spec fn request_rows(os: Seq<Offer>, rid: u64) -> Seq<Offer>
    decreases os.len(),
{
    if os.len() == 0 {
        Seq::empty()
    } else {
        let prefix = request_rows(os.drop_last(), rid);
        if os.last().request_id == rid {
            prefix.push(os.last())
        } else {
            prefix
        }
    }
}

/// The offers of request `rid` other than offer `excl`, in storage order:
/// the bids whose suppliers are told the request closed.
pub open spec fn sibling_rows(os: Seq<Offer>, rid: u64, excl: u64) -> Seq<Offer>
    decreases os.len(),
{
    if os.len() == 0 {
        Seq::empty()
    } else {
        let prefix = sibling_rows(os.drop_last(), rid, excl);
        if os.last().request_id == rid && os.last().id != excl {
            prefix.push(os.last())
        } else {
            prefix
        }
    }
}

/// The offer ledger: bids and the winner-selection protocol.
pub struct Ledger {
    pub offers: Vec<Offer>,
    pub next_id: u64,
}

impl Ledger {
    /// Ids are unique and below the id counter, and each request holds at
    /// most one winning offer.
    pub open spec fn wf(self) -> bool {
        &&& (forall|i: int, j: int|
            0 <= i < self.offers@.len() && 0 <= j < self.offers@.len() && i != j
                ==> self.offers@[i].id != self.offers@[j].id)
        &&& (forall|i: int, j: int|
            0 <= i < self.offers@.len() && 0 <= j < self.offers@.len() && i != j
                && self.offers@[i].status == OfferStatus::Winning && self.offers@[j].status
                == OfferStatus::Winning ==> self.offers@[i].request_id
                != self.offers@[j].request_id)
        &&& (forall|i: int| 0 <= i < self.offers@.len() ==> self.offers@[i].id < self.next_id)
        &&& self.next_id >= 1
    }

    pub fn new() -> (r: Ledger)
        ensures
            r.wf(),
            r.offers@ == Seq::<Offer>::empty(),
            r.next_id == 1,
    {
        Ledger { offers: Vec::new(), next_id: 1 }
    }

    fn index_of_id(&self, id: u64) -> (r: Option<usize>)
        ensures
            r matches Some(i) ==> i < self.offers@.len() && self.offers@[i as int].id == id,
            r is None ==> !off_contains_id(self.offers@, id),
    {
        let mut i: usize = 0;
        while i < self.offers.len()
            invariant
                i <= self.offers@.len(),
                forall|k: int| 0 <= k < i ==> self.offers@[k].id != id,
            decreases self.offers@.len() - i,
        {
            if self.offers[i].id == id {
                return Some(i);
            }
            i += 1;
        }
        None
    }

    /// With unique ids, any index holding `id` is the chosen one.
    proof fn lemma_id_idx_is(self, id: u64, i: int)
        requires
            self.wf(),
            0 <= i < self.offers@.len(),
            self.offers@[i].id == id,
        ensures
            off_id_idx(self.offers@, id) == i,
            off_contains_id(self.offers@, id),
    {
        assert(off_contains_id(self.offers@, id));
        let j = off_id_idx(self.offers@, id);
        assert(0 <= j < self.offers@.len() && self.offers@[j].id == id);
    }

    /// Inserts the submission as `Pending`. Whether the submitting supplier
    /// is active is an authorization concern of the boundary, not checked
    /// here.
    pub fn create_offer(&mut self, n: &NewOffer, now: i64) -> (r: Offer)
        requires
            old(self).wf(),
            old(self).next_id < u64::MAX,
        ensures
            final(self).wf(),
            r == submitted_row(*n, now, old(self).next_id),
            final(self).offers@ == old(self).offers@.push(r),
            final(self).next_id == old(self).next_id + 1,
    {
        let row = Offer {
            id: self.next_id,
            supplier_id: n.supplier_id,
            request_id: n.request_id,
            price_cents: n.price_cents,
            delivery_time: n.delivery_time.clone(),
            conditions: n.conditions.clone(),
            attachments: n.attachments.clone(),
            photo: match &n.photo {
                Some(p) => Some(p.clone()),
                None => None,
            },
            status: OfferStatus::Pending,
            created_at: now,
        };
        let out = row.clone();
        self.offers.push(row);
        self.next_id = self.next_id + 1;
        out
    }

    /// A copy of the offer `id` resolves to.
    pub fn get_offer(&self, id: u64) -> (r: Option<Offer>)
        requires
            self.wf(),
        ensures
            r is Some <==> off_contains_id(self.offers@, id),
            r matches Some(o) ==> o == self.offers@[off_id_idx(self.offers@, id)],
    {
        match self.index_of_id(id) {
            None => None,
            Some(i) => {
                proof {
                    self.lemma_id_idx_is(id, i as int);
                }
                Some(self.offers[i].clone())
            },
        }
    }

    /// The offers submitted against one request.
    pub fn list_offers(&self, request_id: u64) -> (r: Vec<Offer>)
        ensures
            r@ == request_rows(self.offers@, request_id),
    {
        let mut out: Vec<Offer> = Vec::new();
        let mut i: usize = 0;
        while i < self.offers.len()
            invariant
                i <= self.offers@.len(),
                out@ == request_rows(self.offers@.take(i as int), request_id),
            decreases self.offers@.len() - i,
        {
            proof {
                assert(self.offers@.take(i + 1).drop_last() =~= self.offers@.take(i as int));
                assert(self.offers@.take(i + 1).last() == self.offers@[i as int]);
            }
            if self.offers[i].request_id == request_id {
                out.push(self.offers[i].clone());
            }
            i += 1;
        }
        proof {
            assert(self.offers@.take(self.offers@.len() as int) =~= self.offers@);
        }
        out
    }

    /// The offers of one request other than `excl`, in storage order.
    pub fn siblings(&self, request_id: u64, excl: u64) -> (r: Vec<Offer>)
        ensures
            r@ == sibling_rows(self.offers@, request_id, excl),
    {
        let mut out: Vec<Offer> = Vec::new();
        let mut i: usize = 0;
        while i < self.offers.len()
            invariant
                i <= self.offers@.len(),
                out@ == sibling_rows(self.offers@.take(i as int), request_id, excl),
            decreases self.offers@.len() - i,
        {
            proof {
                assert(self.offers@.take(i + 1).drop_last() =~= self.offers@.take(i as int));
                assert(self.offers@.take(i + 1).last() == self.offers@[i as int]);
            }
            if self.offers[i].request_id == request_id && self.offers[i].id != excl {
                out.push(self.offers[i].clone());
            }
            i += 1;
        }
        proof {
            assert(self.offers@.take(self.offers@.len() as int) =~= self.offers@);
        }
        out
    }

    /// Every stored offer, copied in storage order.
    pub fn list_all_offers(&self) -> (r: Vec<Offer>)
        ensures
            r@ == self.offers@,
    {
        let mut out: Vec<Offer> = Vec::new();
        let mut i: usize = 0;
        while i < self.offers.len()
            invariant
                i <= self.offers@.len(),
                out@ == self.offers@.take(i as int),
            decreases self.offers@.len() - i,
        {
            proof {
                assert(self.offers@.take(i + 1) =~= self.offers@.take(i as int).push(
                    self.offers@[i as int],
                ));
            }
            out.push(self.offers[i].clone());
            i += 1;
        }
        proof {
            assert(self.offers@.take(self.offers@.len() as int) =~= self.offers@);
        }
        out
    }

    /// The compare-and-set at the heart of winner selection: the target
    /// becomes `Winning` only if no other offer of its request already is,
    /// else the call fails with a conflict and changes nothing. An unknown
    /// id fails with not-found and changes nothing.
    pub fn mark_winner(&mut self, offer_id: u64) -> (r: Result<Offer, SelectWinnerError>)
        requires
            old(self).wf(),
        ensures
            final(self).wf(),
            final(self).next_id == old(self).next_id,
            r is Err ==> *final(self) == *old(self),
            (r matches Err(e) && e == SelectWinnerError::NotFound) <==> !off_contains_id(
                old(self).offers@,
                offer_id,
            ),
            (r matches Err(e) && e == SelectWinnerError::Conflict) <==> (off_contains_id(
                old(self).offers@,
                offer_id,
            ) && winner_exists_for(
                old(self).offers@,
                old(self).offers@[off_id_idx(old(self).offers@, offer_id)].request_id,
                offer_id,
            )),
            r matches Ok(o) ==> ({
                let i = off_id_idx(old(self).offers@, offer_id);
                o == crowned(old(self).offers@[i]) && final(self).offers@ == old(
                    self,
                ).offers@.update(i, o)
            }),
    {
        let i = match self.index_of_id(offer_id) {
            None => {
                return Err(SelectWinnerError::NotFound);
            },
            Some(i) => i,
        };
        proof {
            self.lemma_id_idx_is(offer_id, i as int);
        }
        let rid = self.offers[i].request_id;
        let mut j: usize = 0;
        while j < self.offers.len()
            invariant
                self.wf(),
                i < self.offers@.len(),
                self.offers@[i as int].id == offer_id,
                self.offers@[i as int].request_id == rid,
                j <= self.offers@.len(),
                forall|k: int|
                    0 <= k < j ==> !(self.offers@[k].id != offer_id && self.offers@[k].request_id
                        == rid && self.offers@[k].status == OfferStatus::Winning),
            decreases self.offers@.len() - j,
        {
            let other = &self.offers[j];
            if other.id != offer_id && other.request_id == rid {
                match other.status {
                    OfferStatus::Winning => {
                        return Err(SelectWinnerError::Conflict);
                    },
                    _ => {},
                }
            }
            j += 1;
        }
        let who = &mut self.offers[i];
        who.status = OfferStatus::Winning;
        let out = self.offers[i].clone();
        Ok(out)
    }
}

/// Law: after a successful winner selection on an offer of request `rid`,
/// exactly one offer of `rid` holds the winning status: the one selected.
pub proof fn lemma_single_winner(os: Seq<Offer>, i: int)
    requires
        0 <= i < os.len(),
        forall|a: int, b: int|
            0 <= a < os.len() && 0 <= b < os.len() && a != b ==> os[a].id != os[b].id,
        !winner_exists_for(os, os[i].request_id, os[i].id),
    ensures
        ({
            let os2 = os.update(i, crowned(os[i]));
            os2[i].status == OfferStatus::Winning && os2[i].request_id == os[i].request_id
                && (forall|j: int|
                0 <= j < os2.len() && os2[j].request_id == os[i].request_id && os2[j].status
                    == OfferStatus::Winning ==> j == i)
        }),
{
    let os2 = os.update(i, crowned(os[i]));
    assert forall|j: int|
        0 <= j < os2.len() && os2[j].request_id == os[i].request_id && os2[j].status
            == OfferStatus::Winning implies j == i by {
        if j != i {
            assert(os2[j] == os[j]);
            assert(os[j].id != os[i].id);
            assert(winner_exists_for(os, os[i].request_id, os[i].id));
        }
    }
}

} // verus!
