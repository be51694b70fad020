use procurement_core::config::EmailConfig;
use procurement_core::errors::SelectWinnerError;
use procurement_core::notify::NotificationKind;
use procurement_core::offer::{NewOffer, OfferStatus};
use procurement_core::portal::Portal;
use procurement_core::supplier::NewSupplier;

fn mail() -> EmailConfig {
    EmailConfig {
        smtp_host: "smtp.example.com".to_string(),
        smtp_port: 587,
        smtp_user: "mailer".to_string(),
        smtp_password: "secret".to_string(),
        smtp_from: "portal@example.com".to_string(),
    }
}

fn bid(supplier_id: u64, request_id: u64, price_cents: u64) -> NewOffer {
    NewOffer {
        supplier_id,
        request_id,
        price_cents,
        delivery_time: "2 weeks".to_string(),
        conditions: "net 30".to_string(),
        attachments: "quote.pdf".to_string(),
        photo: None,
    }
}

/// A portal with three suppliers bidding on request 7 and one on request 8;
/// returns it with the ids of the three offers on request 7.
fn arena() -> (Portal, u64, u64, u64) {
    let mut portal = Portal::new(mail());
    for email in ["a@x.com", "b@x.com", "c@x.com"] {
        let c = NewSupplier {
            name: email.to_string(),
            contact: "contact".to_string(),
            email: email.to_string(),
            phone: "555".to_string(),
            password: "pw".to_string(),
            documents: String::new(),
        };
        let (s, _) = portal.register(&c, 0).unwrap();
        portal.approve_supplier(s.id).unwrap();
    }
    let o1 = portal.ledger.create_offer(&bid(1, 7, 100_00), 10);
    let o2 = portal.ledger.create_offer(&bid(2, 7, 90_00), 11);
    let o3 = portal.ledger.create_offer(&bid(3, 7, 80_00), 12);
    portal.ledger.create_offer(&bid(1, 8, 10_00), 13);
    (portal, o1.id, o2.id, o3.id)
}

#[test]
fn submissions_arrive_pending() {
    let (portal, o1, _, _) = arena();
    let stored = portal.ledger.get_offer(o1).unwrap();
    assert_eq!(stored.status, OfferStatus::Pending);
    assert_eq!(stored.price_cents, 100_00);
    assert_eq!(stored.created_at, 10);
}

#[test]
fn winner_selection_crowns_one_offer_and_notifies_every_sibling() {
    let (mut portal, _o1, o2, _o3) = arena();
    let (won, intents) = portal.mark_winner(o2).unwrap();
    assert_eq!(won.status, OfferStatus::Winning);
    assert_eq!(won.supplier_id, 2);
    // exactly one winning offer on request 7 afterward
    let on_seven = portal.ledger.list_offers(7);
    let winners: Vec<_> =
        on_seven.iter().filter(|o| o.status == OfferStatus::Winning).collect();
    assert_eq!(winners.len(), 1);
    assert_eq!(winners[0].id, o2);
    // one winner message, then one request-closed message per sibling on 7
    assert_eq!(intents.len(), 3);
    assert_eq!(intents[0].kind, NotificationKind::Winner);
    assert_eq!(intents[0].to, "b@x.com");
    assert_eq!(intents[1].kind, NotificationKind::RequestClosed);
    assert_eq!(intents[1].to, "a@x.com");
    assert_eq!(intents[2].kind, NotificationKind::RequestClosed);
    assert_eq!(intents[2].to, "c@x.com");
    // the offer on request 8 was neither touched nor notified
    assert_eq!(portal.ledger.list_offers(8)[0].status, OfferStatus::Pending);
}

#[test]
fn siblings_keep_their_stored_status() {
    // deliberate: losing offers are notified, not re-labelled
    let (mut portal, o1, o2, _) = arena();
    portal.mark_winner(o2).unwrap();
    assert_eq!(portal.ledger.get_offer(o1).unwrap().status, OfferStatus::Pending);
}

#[test]
fn selecting_a_second_winner_for_the_same_request_conflicts() {
    let (mut portal, o1, o2, _) = arena();
    portal.mark_winner(o2).unwrap();
    let again = portal.mark_winner(o1);
    assert!(matches!(again, Err(SelectWinnerError::Conflict)));
    // the refused call changed nothing
    assert_eq!(portal.ledger.get_offer(o1).unwrap().status, OfferStatus::Pending);
    assert_eq!(portal.ledger.get_offer(o2).unwrap().status, OfferStatus::Winning);
}

#[test]
fn reselecting_the_same_winner_succeeds_and_renotifies() {
    let (mut portal, _, o2, _) = arena();
    portal.mark_winner(o2).unwrap();
    let (won, intents) = portal.mark_winner(o2).unwrap();
    assert_eq!(won.status, OfferStatus::Winning);
    assert_eq!(intents.len(), 3);
}

#[test]
fn unknown_offer_id_is_not_found_and_changes_nothing() {
    let (mut portal, o1, _, _) = arena();
    assert!(matches!(portal.mark_winner(999), Err(SelectWinnerError::NotFound)));
    assert_eq!(portal.ledger.get_offer(o1).unwrap().status, OfferStatus::Pending);
}

#[test]
fn a_missing_supplier_resolves_to_an_empty_address() {
    let (mut portal, o1, _, _) = arena();
    // supplier 1 is rejected after bidding; the winner message still goes out,
    // with an empty address for the vanished record
    portal.reject_supplier(1).unwrap();
    let (_, intents) = portal.mark_winner(o1).unwrap();
    assert_eq!(intents[0].kind, NotificationKind::Winner);
    assert_eq!(intents[0].to, "");
}

#[test]
fn list_all_offers_returns_every_row_in_order() {
    let (portal, _, _, _) = arena();
    let all = portal.ledger.list_all_offers();
    assert_eq!(all.len(), 4);
    assert_eq!(all[0].id, 1);
    assert_eq!(all[3].request_id, 8);
}
