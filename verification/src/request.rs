use vstd::prelude::*;

use crate::datetime::{parse_deadline, parsed_deadline};

verus! {

/// Visibility of a request. `Open` and `Published` are both
/// visible-to-suppliers states; which one a request carries only records its
/// origin (ERP imports arrive `Open`, manual ones are typically `Published`).
#[derive(Clone, Copy, Debug, PartialEq, Eq, Structural)]
pub enum RequestStatus {
    Open,
    Published,
    Closed,
}

/// A buyer's call for quotes. `origin_erp` is the external identifier of the
/// ERP record it was imported from, empty for manually created requests;
/// non-empty identifiers are unique across the catalog.
#[derive(Debug)]
pub struct Request {
    pub id: u64,
    pub title: String,
    pub description: String,
    pub deadline: i64,
    pub quantity: i64,
    pub units: String,
    pub tags: String,
    pub status: RequestStatus,
    pub origin_erp: String,
}

impl Clone for Request {
    fn clone(&self) -> (r: Self)
        ensures
            r == *self,
    {
        Request {
            id: self.id,
            title: self.title.clone(),
            description: self.description.clone(),
            deadline: self.deadline,
            quantity: self.quantity,
            units: self.units.clone(),
            tags: self.tags.clone(),
            status: self.status,
            origin_erp: self.origin_erp.clone(),
        }
    }
}

/// Fields of a manually published request; the caller picks the status.
#[derive(Debug)]
pub struct NewRequest {
    pub title: String,
    pub description: String,
    pub deadline: i64,
    pub quantity: i64,
    pub units: String,
    pub tags: String,
    pub status: RequestStatus,
}

/// One record of an ERP batch. `deadline`, when present, is an ISO-8601 text
/// that may or may not parse.
#[derive(Debug)]
pub struct ErpRequestItem {
    pub external_id: String,
    pub title: String,
    pub description: String,
    pub quantity: i64,
    pub units: String,
    pub deadline: Option<String>,
    pub tags: String,
}

/// What an import run did: how many items arrived, how many became rows.
#[derive(Clone, Copy, Debug, PartialEq, Eq, Structural)]
pub struct ImportResponse {
    pub received: usize,
    pub inserted: usize,
}

pub open spec fn req_contains_id(rs: Seq<Request>, id: u64) -> bool {
    exists|i: int| 0 <= i < rs.len() && rs[i].id == id
}

/// Whether some row carries exactly this external identifier.
pub open spec fn has_origin(rs: Seq<Request>, o: Seq<char>) -> bool {
    exists|i: int| 0 <= i < rs.len() && rs[i].origin_erp@ == o
}

/// The deadline an item ends up with: its text parsed when that succeeds,
/// the import time otherwise (lenience, not a validation error).
pub open spec fn item_deadline(it: ErpRequestItem, now: i64) -> i64 {
    match it.deadline {
        Some(d) => match parsed_deadline(d@) {
            Some(t) => t,
            None => now,
        },
        None => now,
    }
}

/// The row an ERP item becomes: status `Open`, keyed by its external id.
pub open spec fn imported_row(it: ErpRequestItem, now: i64, id: u64) -> Request {
    Request {
        id: id,
        title: it.title,
        description: it.description,
        deadline: item_deadline(it, now),
        quantity: it.quantity,
        units: it.units,
        tags: it.tags,
        status: RequestStatus::Open,
        origin_erp: it.external_id,
    }
}

/// An item is skipped when its external id is non-empty and already present:
/// later pushes of the same record are not merged, only ignored.
pub open spec fn skip_item(rs: Seq<Request>, it: ErpRequestItem) -> bool {
    it.external_id@.len() > 0 && has_origin(rs, it.external_id@)
}

/// The catalog contents after importing `items` in order, checking each item
/// against the rows present at its turn (so a batch also deduplicates
/// against itself).
pub open spec fn import_rows(
    rs: Seq<Request>,
    items: Seq<ErpRequestItem>,
    now: i64,
    nid: u64,
) -> Seq<Request>
    decreases items.len(),
{
    if items.len() == 0 {
        rs
    } else if skip_item(rs, items[0]) {
        import_rows(rs, items.drop_first(), now, nid)
    } else {
        import_rows(
            rs.push(imported_row(items[0], now, nid)),
            items.drop_first(),
            now,
            (nid + 1) as u64,
        )
    }
}

/// The requests currently visible to suppliers, in storage order.
pub open spec fn visible_rows(rs: Seq<Request>) -> Seq<Request>
    decreases rs.len(),
{
    if rs.len() == 0 {
        Seq::empty()
    } else {
        let prefix = visible_rows(rs.drop_last());
        if rs.last().status == RequestStatus::Open || rs.last().status == RequestStatus::Published {
            prefix.push(rs.last())
        } else {
            prefix
        }
    }
}

/// The request catalog: buyer-published requests and deduplicated ERP
/// ingestion.
pub struct Catalog {
    pub requests: Vec<Request>,
    pub next_id: u64,
}

impl Catalog {
    /// Ids are unique and below the id counter; non-empty external ids are
    /// unique.
    pub open spec fn wf(self) -> bool {
        &&& (forall|i: int, j: int|
            0 <= i < self.requests@.len() && 0 <= j < self.requests@.len() && i != j
                ==> self.requests@[i].id != self.requests@[j].id)
        &&& (forall|i: int, j: int|
            0 <= i < self.requests@.len() && 0 <= j < self.requests@.len() && i != j
                && self.requests@[i].origin_erp@.len() > 0 ==> self.requests@[i].origin_erp@
                != self.requests@[j].origin_erp@)
        &&& (forall|i: int| 0 <= i < self.requests@.len() ==> self.requests@[i].id < self.next_id)
        &&& self.next_id >= 1
    }

    pub fn new() -> (r: Catalog)
        ensures
            r.wf(),
            r.requests@ == Seq::<Request>::empty(),
            r.next_id == 1,
    {
        Catalog { requests: Vec::new(), next_id: 1 }
    }

    fn find_origin(&self, o: &String) -> (r: bool)
        ensures
            r == has_origin(self.requests@, o@),
    {
        let mut i: usize = 0;
        while i < self.requests.len()
            invariant
                i <= self.requests@.len(),
                forall|k: int| 0 <= k < i ==> self.requests@[k].origin_erp@ != o@,
            decreases self.requests@.len() - i,
        {
            if self.requests[i].origin_erp == *o {
                return true;
            }
            i += 1;
        }
        false
    }

    /// Direct insertion of a manually created request, with the
    /// caller-supplied status and an empty external id.
    pub fn create_request(&mut self, nr: &NewRequest) -> (r: Request)
        requires
            old(self).wf(),
            old(self).next_id < u64::MAX,
        ensures
            final(self).wf(),
            final(self).requests@ == old(self).requests@.push(r),
            final(self).next_id == old(self).next_id + 1,
            r.id == old(self).next_id,
            r.title == nr.title,
            r.description == nr.description,
            r.deadline == nr.deadline,
            r.quantity == nr.quantity,
            r.units == nr.units,
            r.tags == nr.tags,
            r.status == nr.status,
            r.origin_erp@ == Seq::<char>::empty(),
    {
        let row = Request {
            id: self.next_id,
            title: nr.title.clone(),
            description: nr.description.clone(),
            deadline: nr.deadline,
            quantity: nr.quantity,
            units: nr.units.clone(),
            tags: nr.tags.clone(),
            status: nr.status,
            origin_erp: String::new(),
        };
        let out = row.clone();
        self.requests.push(row);
        self.next_id = self.next_id + 1;
        out
    }

    /// Deduplicated bulk ingestion: each item whose non-empty external id is
    /// not yet present becomes an `Open` row; an unparseable or missing
    /// deadline is replaced by `now` rather than failing the item; the rest
    /// of the batch is processed either way.
    pub fn import_requests(&mut self, items: &Vec<ErpRequestItem>, now: i64) -> (r: ImportResponse)
        requires
            old(self).wf(),
            old(self).next_id + items@.len() <= u64::MAX,
        ensures
            final(self).wf(),
            final(self).requests@ == import_rows(
                old(self).requests@,
                items@,
                now,
                old(self).next_id,
            ),
            r.received == items@.len(),
            r.inserted == final(self).requests@.len() - old(self).requests@.len(),
            final(self).next_id == old(self).next_id + r.inserted,
    {
        let received = items.len();
        let mut inserted: usize = 0;
        let mut i: usize = 0;
        proof {
            assert(items@.skip(0) =~= items@);
        }
        while i < items.len()
            invariant
                old(self).wf(),
                self.wf(),
                i <= items@.len(),
                inserted <= i,
                old(self).next_id + items@.len() <= u64::MAX,
                self.requests@.len() == old(self).requests@.len() + inserted,
                self.next_id == old(self).next_id + inserted,
                import_rows(old(self).requests@, items@, now, old(self).next_id) == import_rows(
                    self.requests@,
                    items@.skip(i as int),
                    now,
                    self.next_id,
                ),
            decreases items@.len() - i,
        {
            proof {
                assert(items@.skip(i as int)[0] == items@[i as int]);
                assert(items@.skip(i as int).drop_first() =~= items@.skip(i + 1));
            }
            let it = &items[i];
            let empty = String::new();
            let fresh = if it.external_id == empty {
                proof {
                    assert(it.external_id@ =~= Seq::<char>::empty());
                }
                true
            } else {
                proof {
                    assert(it.external_id@.len() == 0 ==> it.external_id@ =~= Seq::<
                        char,
                    >::empty());
                }
                !self.find_origin(&it.external_id)
            };
            if fresh {
                let dl: i64 = match &it.deadline {
                    Some(d) => match parse_deadline(d) {
                        Some(t) => t,
                        None => now,
                    },
                    None => now,
                };
                let row = Request {
                    id: self.next_id,
                    title: it.title.clone(),
                    description: it.description.clone(),
                    deadline: dl,
                    quantity: it.quantity,
                    units: it.units.clone(),
                    tags: it.tags.clone(),
                    status: RequestStatus::Open,
                    origin_erp: it.external_id.clone(),
                };
                proof {
                    assert(row == imported_row(items@[i as int], now, self.next_id));
                    assert(!skip_item(self.requests@, items@[i as int]));
                }
                self.requests.push(row);
                self.next_id = self.next_id + 1;
                inserted = inserted + 1;
            } else {
                proof {
                    assert(skip_item(self.requests@, items@[i as int]));
                }
            }
            i += 1;
        }
        proof {
            assert(items@.skip(items@.len() as int) =~= Seq::<ErpRequestItem>::empty());
        }
        ImportResponse { received: received, inserted: inserted }
    }

    /// The requests whose status is visible to suppliers.
    pub fn list_requests(&self) -> (r: Vec<Request>)
        ensures
            r@ == visible_rows(self.requests@),
    {
        let mut out: Vec<Request> = Vec::new();
        let mut i: usize = 0;
        while i < self.requests.len()
            invariant
                i <= self.requests@.len(),
                out@ == visible_rows(self.requests@.take(i as int)),
            decreases self.requests@.len() - i,
        {
            proof {
                assert(self.requests@.take(i + 1).drop_last() =~= self.requests@.take(i as int));
                assert(self.requests@.take(i + 1).last() == self.requests@[i as int]);
            }
            let keep = match self.requests[i].status {
                RequestStatus::Open => true,
                RequestStatus::Published => true,
                RequestStatus::Closed => false,
            };
            if keep {
                out.push(self.requests[i].clone());
            }
            i += 1;
        }
        proof {
            assert(self.requests@.take(self.requests@.len() as int) =~= self.requests@);
        }
        out
    }
}

/// Importing never removes an external id that is already present.
proof fn lemma_import_keeps_origin(
    rs: Seq<Request>,
    items: Seq<ErpRequestItem>,
    now: i64,
    nid: u64,
    o: Seq<char>,
)
    requires
        has_origin(rs, o),
    ensures
        has_origin(import_rows(rs, items, now, nid), o),
    decreases items.len(),
{
    if items.len() == 0 {
    } else if skip_item(rs, items[0]) {
        lemma_import_keeps_origin(rs, items.drop_first(), now, nid, o);
    } else {
        let rs1 = rs.push(imported_row(items[0], now, nid));
        let w = choose|i: int| 0 <= i < rs.len() && rs[i].origin_erp@ == o;
        assert(rs1[w].origin_erp@ == o);
        lemma_import_keeps_origin(rs1, items.drop_first(), now, (nid + 1) as u64, o);
    }
}

/// After an import, every non-empty external id of the batch is present.
proof fn lemma_import_covers(rs: Seq<Request>, items: Seq<ErpRequestItem>, now: i64, nid: u64)
    ensures
        forall|k: int|
            0 <= k < items.len() && items[k].external_id@.len() > 0 ==> has_origin(
                import_rows(rs, items, now, nid),
                items[k].external_id@,
            ),
    decreases items.len(),
{
    if items.len() == 0 {
    } else {
        let rest = items.drop_first();
        if skip_item(rs, items[0]) {
            lemma_import_keeps_origin(rs, rest, now, nid, items[0].external_id@);
            lemma_import_covers(rs, rest, now, nid);
            assert forall|k: int|
                0 <= k < items.len() && items[k].external_id@.len() > 0 implies has_origin(
                import_rows(rs, items, now, nid),
                items[k].external_id@,
            ) by {
                if k > 0 {
                    assert(rest[k - 1] == items[k]);
                }
            }
        } else {
            let rs1 = rs.push(imported_row(items[0], now, nid));
            if items[0].external_id@.len() > 0 {
                assert(rs1[rs.len() as int].origin_erp@ == items[0].external_id@);
                assert(has_origin(rs1, items[0].external_id@));
                lemma_import_keeps_origin(rs1, rest, now, (nid + 1) as u64, items[0].external_id@);
            }
            lemma_import_covers(rs1, rest, now, (nid + 1) as u64);
            assert forall|k: int|
                0 <= k < items.len() && items[k].external_id@.len() > 0 implies has_origin(
                import_rows(rs, items, now, nid),
                items[k].external_id@,
            ) by {
                if k > 0 {
                    assert(rest[k - 1] == items[k]);
                }
            }
        }
    }
}

/// When every item of the batch carries a non-empty external id that is
/// already present, the import is a no-op.
proof fn lemma_import_all_present_noop(
    rs: Seq<Request>,
    items: Seq<ErpRequestItem>,
    now: i64,
    nid: u64,
)
    requires
        forall|k: int|
            0 <= k < items.len() ==> items[k].external_id@.len() > 0 && has_origin(
                rs,
                items[k].external_id@,
            ),
    ensures
        import_rows(rs, items, now, nid) == rs,
    decreases items.len(),
{
    if items.len() == 0 {
    } else {
        let rest = items.drop_first();
        assert(skip_item(rs, items[0]));
        assert forall|k: int|
            0 <= k < rest.len() implies rest[k].external_id@.len() > 0 && has_origin(
            rs,
            rest[k].external_id@,
        ) by {
            assert(rest[k] == items[k + 1]);
        }
        lemma_import_all_present_noop(rs, rest, now, nid);
    }
}

/// Law: importing the same batch twice changes nothing the second time, as
/// long as every item carries a non-empty external id; in particular the
/// second run inserts zero rows and leaves the request count unchanged.
pub proof fn lemma_import_idempotent(
    rs: Seq<Request>,
    items: Seq<ErpRequestItem>,
    now1: i64,
    nid1: u64,
    now2: i64,
    nid2: u64,
)
    requires
        forall|k: int| 0 <= k < items.len() ==> items[k].external_id@.len() > 0,
    ensures
        import_rows(import_rows(rs, items, now1, nid1), items, now2, nid2) == import_rows(
            rs,
            items,
            now1,
            nid1,
        ),
{
    let rs1 = import_rows(rs, items, now1, nid1);
    lemma_import_covers(rs, items, now1, nid1);
    lemma_import_all_present_noop(rs1, items, now2, nid2);
}

} // verus!
