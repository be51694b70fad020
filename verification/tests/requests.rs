use procurement_core::request::{Catalog, ErpRequestItem, NewRequest, RequestStatus};

fn item(external_id: &str, title: &str, deadline: Option<&str>) -> ErpRequestItem {
    ErpRequestItem {
        external_id: external_id.to_string(),
        title: title.to_string(),
        description: "desc".to_string(),
        quantity: 5,
        units: "kg".to_string(),
        deadline: deadline.map(|d| d.to_string()),
        tags: "erp".to_string(),
    }
}

#[test]
fn import_twice_inserts_nothing_the_second_time() {
    let mut catalog = Catalog::new();
    let items = vec![
        item("EXT-1", "Bolts", Some("2024-01-02T03:04:05")),
        item("EXT-2", "Nuts", None),
    ];
    let first = catalog.import_requests(&items, 1_700_000_000);
    assert_eq!(first.received, 2);
    assert_eq!(first.inserted, 2);
    let count_after_first = catalog.requests.len();
    let second = catalog.import_requests(&items, 1_800_000_000);
    assert_eq!(second.received, 2);
    assert_eq!(second.inserted, 0);
    assert_eq!(catalog.requests.len(), count_after_first);
}

#[test]
fn unparseable_deadline_is_replaced_by_now_and_the_batch_goes_on() {
    let mut catalog = Catalog::new();
    let now = 1_700_000_000;
    let items = vec![
        item("EXT-1", "Bolts", Some("not-a-date")),
        item("EXT-2", "Nuts", Some("2024-01-02T03:04:05")),
    ];
    let summary = catalog.import_requests(&items, now);
    assert_eq!(summary.inserted, 2);
    assert_eq!(catalog.requests[0].deadline, now);
    // 2024-01-02T03:04:05 UTC as epoch seconds
    assert_eq!(catalog.requests[1].deadline, 1_704_164_645);
}

#[test]
fn missing_deadline_is_replaced_by_now() {
    let mut catalog = Catalog::new();
    let summary = catalog.import_requests(&vec![item("EXT-9", "Rope", None)], 123_456);
    assert_eq!(summary.inserted, 1);
    assert_eq!(catalog.requests[0].deadline, 123_456);
}

#[test]
fn imported_rows_arrive_open_and_keyed_by_external_id() {
    let mut catalog = Catalog::new();
    catalog.import_requests(&vec![item("EXT-1", "Bolts", None)], 0);
    let row = &catalog.requests[0];
    assert_eq!(row.id, 1);
    assert_eq!(row.status, RequestStatus::Open);
    assert_eq!(row.origin_erp, "EXT-1");
    assert_eq!(row.title, "Bolts");
    assert_eq!(row.tags, "erp");
}

#[test]
fn empty_external_id_is_never_deduplicated() {
    let mut catalog = Catalog::new();
    let items = vec![item("", "Ad hoc", None)];
    assert_eq!(catalog.import_requests(&items, 0).inserted, 1);
    assert_eq!(catalog.import_requests(&items, 0).inserted, 1);
    assert_eq!(catalog.requests.len(), 2);
}

#[test]
fn a_batch_deduplicates_against_itself() {
    let mut catalog = Catalog::new();
    let items = vec![
        item("EXT-1", "Bolts", None),
        item("EXT-1", "Bolts again", None),
    ];
    let summary = catalog.import_requests(&items, 0);
    assert_eq!(summary.received, 2);
    assert_eq!(summary.inserted, 1);
    assert_eq!(catalog.requests[0].title, "Bolts");
}

#[test]
fn manual_requests_have_an_empty_origin_and_the_callers_status() {
    let mut catalog = Catalog::new();
    let nr = NewRequest {
        title: "Cement".to_string(),
        description: "50 bags".to_string(),
        deadline: 9_999,
        quantity: 50,
        units: "bag".to_string(),
        tags: "construction".to_string(),
        status: RequestStatus::Published,
    };
    let row = catalog.create_request(&nr);
    assert_eq!(row.id, 1);
    assert_eq!(row.origin_erp, "");
    assert_eq!(row.status, RequestStatus::Published);
    assert_eq!(row.deadline, 9_999);
}

#[test]
fn listing_shows_open_and_published_but_not_closed() {
    let mut catalog = Catalog::new();
    for (title, status) in [
        ("a", RequestStatus::Open),
        ("b", RequestStatus::Published),
        ("c", RequestStatus::Closed),
    ] {
        catalog.create_request(&NewRequest {
            title: title.to_string(),
            description: String::new(),
            deadline: 0,
            quantity: 1,
            units: "u".to_string(),
            tags: String::new(),
            status,
        });
    }
    let visible = catalog.list_requests();
    assert_eq!(visible.len(), 2);
    assert_eq!(visible[0].title, "a");
    assert_eq!(visible[1].title, "b");
}
