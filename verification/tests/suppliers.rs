use procurement_core::config::EmailConfig;
use procurement_core::errors::{AuthError, NotFoundError, RegisterError};
use procurement_core::notify::NotificationKind;
use procurement_core::portal::Portal;
use procurement_core::supplier::{ComplianceUpdate, LoginInput, NewSupplier, UpdateDocsInput};

fn mail() -> EmailConfig {
    EmailConfig {
        smtp_host: "smtp.example.com".to_string(),
        smtp_port: 587,
        smtp_user: "mailer".to_string(),
        smtp_password: "secret".to_string(),
        smtp_from: "portal@example.com".to_string(),
    }
}

fn candidate(email: &str, password: &str) -> NewSupplier {
    NewSupplier {
        name: "Acme Supplies".to_string(),
        contact: "Jo Smith".to_string(),
        email: email.to_string(),
        phone: "555-0100".to_string(),
        password: password.to_string(),
        documents: "docs.pdf".to_string(),
    }
}

#[test]
fn register_stores_inactive_with_welcome_intent() {
    let mut portal = Portal::new(mail());
    let (s, intent) = portal.register(&candidate("a@b.com", "pw1"), 1000).unwrap();
    assert_eq!(s.id, 1);
    assert_eq!(s.email, "a@b.com");
    assert!(!s.active);
    assert!(!s.is_reviewed && !s.is_approved && !s.is_audited);
    assert_eq!(s.created_at, 1000);
    assert_eq!(s.earnings_count, 0);
    // the plaintext is never stored
    assert_ne!(s.password_hash, "pw1");
    assert_eq!(intent.kind, NotificationKind::Welcome);
    assert_eq!(intent.to, "a@b.com");
}

#[test]
fn duplicate_email_conflicts_and_first_record_is_unaffected() {
    let mut portal = Portal::new(mail());
    let (first, _) = portal.register(&candidate("a@b.com", "pw1"), 1000).unwrap();
    let second = portal.register(&candidate("a@b.com", "pw2"), 2000);
    assert!(matches!(second, Err(RegisterError::Conflict)));
    let kept = portal.directory.get_supplier(first.id).unwrap();
    assert_eq!(kept.email, "a@b.com");
    assert_eq!(kept.name, first.name);
    assert_eq!(kept.password_hash, first.password_hash);
    assert_eq!(kept.created_at, 1000);
    assert_eq!(portal.directory.suppliers.len(), 1);
}

#[test]
fn pending_until_approved_then_accepted() {
    let mut portal = Portal::new(mail());
    let (s, _) = portal.register(&candidate("a@b.com", "hunter2"), 1000).unwrap();
    let creds = LoginInput { email: "a@b.com".to_string(), password: "hunter2".to_string() };
    // correct credentials, but the account is not yet approved
    assert!(matches!(portal.directory.login(&creds, 5000), Err(AuthError::PendingApproval)));
    let (approved, intent) = portal.approve_supplier(s.id).unwrap();
    assert!(approved.active);
    assert_eq!(intent.kind, NotificationKind::Approved);
    assert_eq!(intent.to, "a@b.com");
    let claim = portal.directory.login(&creds, 5000).unwrap();
    assert_eq!(claim.sub, "a@b.com");
    assert_eq!(claim.exp, 5000 + 14400);
}

#[test]
fn login_unknown_email_is_not_found() {
    let portal = Portal::new(mail());
    let creds = LoginInput { email: "no@where".to_string(), password: "x".to_string() };
    assert!(matches!(portal.directory.login(&creds, 0), Err(AuthError::NotFound)));
}

#[test]
fn login_wrong_password_is_bad_credential() {
    let mut portal = Portal::new(mail());
    let (s, _) = portal.register(&candidate("a@b.com", "right"), 0).unwrap();
    portal.approve_supplier(s.id).unwrap();
    let creds = LoginInput { email: "a@b.com".to_string(), password: "wrong".to_string() };
    assert!(matches!(portal.directory.login(&creds, 0), Err(AuthError::BadCredential)));
}

#[test]
fn approving_twice_is_idempotent_and_renotifies() {
    let mut portal = Portal::new(mail());
    let (s, _) = portal.register(&candidate("a@b.com", "pw"), 0).unwrap();
    let (once, i1) = portal.approve_supplier(s.id).unwrap();
    let (twice, i2) = portal.approve_supplier(s.id).unwrap();
    assert!(once.active && twice.active);
    assert_eq!(i1.kind, NotificationKind::Approved);
    assert_eq!(i2.kind, NotificationKind::Approved);
    assert_eq!(i2.to, "a@b.com");
}

#[test]
fn rejecting_removes_record_and_sends_one_rejection() {
    let mut portal = Portal::new(mail());
    let (s, _) = portal.register(&candidate("a@b.com", "pw"), 0).unwrap();
    let intent = portal.reject_supplier(s.id).unwrap();
    let intent = intent.expect("a rejection notification is produced for a non-empty email");
    assert_eq!(intent.kind, NotificationKind::RegistrationRejected);
    assert_eq!(intent.to, "a@b.com");
    assert!(matches!(portal.directory.get_supplier(s.id), Err(NotFoundError)));
    assert_eq!(portal.directory.suppliers.len(), 0);
}

#[test]
fn rejecting_unknown_id_is_not_found() {
    let mut portal = Portal::new(mail());
    assert!(matches!(portal.reject_supplier(42), Err(NotFoundError)));
}

#[test]
fn compliance_flags_are_overwritten_independently_of_active() {
    let mut portal = Portal::new(mail());
    let (s, _) = portal.register(&candidate("a@b.com", "pw"), 0).unwrap();
    let upd = ComplianceUpdate { is_reviewed: true, is_approved: false, is_audited: true };
    let after = portal.directory.update_compliance(s.id, &upd).unwrap();
    assert!(after.is_reviewed && !after.is_approved && after.is_audited);
    assert!(!after.active);
    let missing = portal.directory.update_compliance(999, &upd);
    assert!(matches!(missing, Err(NotFoundError)));
}

#[test]
fn update_docs_replaces_the_reference() {
    let mut portal = Portal::new(mail());
    let (s, _) = portal.register(&candidate("a@b.com", "pw"), 0).unwrap();
    let input = UpdateDocsInput { documents: "new-blob.zip".to_string() };
    portal.directory.update_docs(s.id, &input).unwrap();
    assert_eq!(portal.directory.get_supplier(s.id).unwrap().documents, "new-blob.zip");
}

#[test]
fn listings_split_by_active_state() {
    let mut portal = Portal::new(mail());
    let (s1, _) = portal.register(&candidate("a@b.com", "pw"), 0).unwrap();
    let (_s2, _) = portal.register(&candidate("c@d.com", "pw"), 0).unwrap();
    portal.approve_supplier(s1.id).unwrap();
    let pending = portal.directory.list_pending_suppliers();
    let approved = portal.directory.list_approved_suppliers();
    assert_eq!(pending.len(), 1);
    assert_eq!(pending[0].email, "c@d.com");
    assert_eq!(approved.len(), 1);
    assert_eq!(approved[0].email, "a@b.com");
}
