use appfence::AppId;
use appfence::audit::AuditLogger;
use appfence::database::Database;
use appfence::types::AccessMode;
use appfence::types::FilesystemAccess;
use appfence::types::NetworkLevel;
use appfence::types::PermissionType;
use appfence::types::PromptDecision;

fn app(name: &str) -> AppId {
    AppId::from_flatpak(name.to_string())
}

#[test]
fn always_decisions_round_trip() {
    let mut db = Database::new();
    let a = app("org.example.App");
    let net = PermissionType::Network(NetworkLevel::Internet);
    let clip = PermissionType::Clipboard;

    db.store_policy(&a, &net, &PromptDecision::AllowAlways, 100);
    db.store_policy(&a, &clip, &PromptDecision::DenyAlways, 100);

    assert_eq!(db.get_policy(&a, &net, 100), Some(PromptDecision::AllowAlways));
    assert_eq!(db.get_policy(&a, &clip, 100), Some(PromptDecision::DenyAlways));
    // No expiry: still there arbitrarily much later.
    assert_eq!(
        db.get_policy(&a, &net, i64::MAX),
        Some(PromptDecision::AllowAlways)
    );
}

#[test]
fn duration_decisions_expire_at_the_boundary() {
    let mut db = Database::new();
    let a = app("org.example.App");
    let net = PermissionType::Network(NetworkLevel::Lan);

    // Stored at t=100 for 10 seconds: expires_at = 110.
    db.store_policy(&a, &net, &PromptDecision::AllowDuration(10), 100);

    assert_eq!(
        db.get_policy(&a, &net, 100),
        Some(PromptDecision::AllowDuration(10))
    );
    assert_eq!(
        db.get_policy(&a, &net, 109),
        Some(PromptDecision::AllowDuration(10))
    );
    // Exactly at the expiry time the row is already treated as absent.
    assert_eq!(db.get_policy(&a, &net, 110), None);
    assert_eq!(db.get_policy(&a, &net, 111), None);
}

#[test]
fn lookup_of_unknown_key_is_none() {
    let db = Database::new();
    let a = app("org.example.App");
    assert_eq!(db.get_policy(&a, &PermissionType::Clipboard, 0), None);
}

#[test]
fn upsert_overwrites_the_row() {
    let mut db = Database::new();
    let a = app("org.example.App");
    let clip = PermissionType::Clipboard;

    db.store_policy(&a, &clip, &PromptDecision::AllowAlways, 100);
    db.store_policy(&a, &clip, &PromptDecision::DenyAlways, 200);

    assert_eq!(db.get_policy(&a, &clip, 300), Some(PromptDecision::DenyAlways));
    // Exactly one row for the key.
    let all = db.get_app_policies(&a, 300);
    assert_eq!(all.len(), 1);
    assert_eq!(all[0].0, clip);
    assert_eq!(all[0].1, PromptDecision::DenyAlways);
}

#[test]
fn distinct_keys_do_not_interfere() {
    let mut db = Database::new();
    let a = app("org.example.App");
    let b = app("org.example.Other");
    let net = PermissionType::Network(NetworkLevel::Internet);
    let fs = PermissionType::Filesystem(FilesystemAccess {
        path: "/home/user/notes".to_string(),
        mode: AccessMode::ReadOnly,
    });

    db.store_policy(&a, &net, &PromptDecision::AllowAlways, 10);
    db.store_policy(&a, &fs, &PromptDecision::DenyAlways, 10);
    db.store_policy(&b, &net, &PromptDecision::DenyAlways, 10);

    assert_eq!(db.get_policy(&a, &net, 20), Some(PromptDecision::AllowAlways));
    assert_eq!(db.get_policy(&a, &fs, 20), Some(PromptDecision::DenyAlways));
    assert_eq!(db.get_policy(&b, &net, 20), Some(PromptDecision::DenyAlways));
    assert_eq!(db.get_app_policies(&a, 20).len(), 2);
    assert_eq!(db.get_app_policies(&b, 20).len(), 1);
}

#[test]
fn cleanup_removes_exactly_the_expired_rows() {
    let mut db = Database::new();
    let a = app("org.example.App");
    let net = PermissionType::Network(NetworkLevel::Internet);
    let clip = PermissionType::Clipboard;

    // Expires at 15: strictly in the past at now=100.
    db.store_policy(&a, &net, &PromptDecision::AllowDuration(5), 10);
    db.store_policy(&a, &clip, &PromptDecision::AllowAlways, 10);

    let removed = db.cleanup_expired_policies(100);
    assert_eq!(removed, 1);
    assert_eq!(db.get_policy(&a, &clip, 100), Some(PromptDecision::AllowAlways));
    assert_eq!(db.get_app_policies(&a, 100).len(), 1);

    // A second sweep finds nothing left to remove.
    assert_eq!(db.cleanup_expired_policies(100), 0);
}

#[test]
fn cleanup_keeps_rows_expiring_exactly_now() {
    let mut db = Database::new();
    let a = app("org.example.App");
    let net = PermissionType::Network(NetworkLevel::Lan);

    // expires_at = 110.
    db.store_policy(&a, &net, &PromptDecision::AllowDuration(10), 100);
    // The sweep removes rows with expires_at < now only.
    assert_eq!(db.cleanup_expired_policies(110), 0);
    // Reads already treat the row as absent at its expiry time.
    assert_eq!(db.get_policy(&a, &net, 110), None);
    assert_eq!(db.cleanup_expired_policies(111), 1);
}

#[test]
fn expired_rows_are_filtered_from_bulk_reads() {
    let mut db = Database::new();
    let a = app("org.example.App");
    let net = PermissionType::Network(NetworkLevel::Internet);
    let clip = PermissionType::Clipboard;

    db.store_policy(&a, &net, &PromptDecision::AllowDuration(5), 10);
    db.store_policy(&a, &clip, &PromptDecision::AllowAlways, 10);

    assert_eq!(db.get_app_policies(&a, 12).len(), 2);
    let later = db.get_app_policies(&a, 50);
    assert_eq!(later.len(), 1);
    assert_eq!(later[0].0, clip);
}

#[test]
fn delete_policy_removes_one_key() {
    let mut db = Database::new();
    let a = app("org.example.App");
    let net = PermissionType::Network(NetworkLevel::Internet);
    let clip = PermissionType::Clipboard;

    db.store_policy(&a, &net, &PromptDecision::AllowAlways, 10);
    db.store_policy(&a, &clip, &PromptDecision::AllowAlways, 10);
    db.delete_policy(&a, &net);

    assert_eq!(db.get_policy(&a, &net, 20), None);
    assert_eq!(db.get_policy(&a, &clip, 20), Some(PromptDecision::AllowAlways));
}

#[test]
fn delete_app_policies_removes_only_that_app() {
    let mut db = Database::new();
    let a = app("org.example.App");
    let b = app("org.example.Other");
    let net = PermissionType::Network(NetworkLevel::Internet);

    db.store_policy(&a, &net, &PromptDecision::AllowAlways, 10);
    db.store_policy(&b, &net, &PromptDecision::DenyAlways, 10);
    db.delete_app_policies(&a);

    assert_eq!(db.get_policy(&a, &net, 20), None);
    assert_eq!(db.get_policy(&b, &net, 20), Some(PromptDecision::DenyAlways));
}

#[test]
fn audit_log_is_read_newest_first() {
    let db = Database::new();
    let mut logger = AuditLogger::new(db);
    let a = app("org.example.App");
    let net = PermissionType::Network(NetworkLevel::Internet);

    logger.log_permission_check(&a, &net, true, false, 11, 1000, 1);
    logger.log_permission_check(&a, &net, false, true, 12, 1000, 2);
    logger.log_permission_check(&a, &net, true, true, 13, 1000, 3);

    let recent = logger.get_recent_entries(2);
    assert_eq!(recent.len(), 2);
    assert_eq!(recent[0].timestamp, 3);
    assert_eq!(recent[0].pid, 13);
    assert!(recent[0].granted);
    assert!(recent[0].was_prompted);
    assert_eq!(recent[1].timestamp, 2);
    assert!(!recent[1].granted);

    let all = logger.get_recent_entries(10);
    assert_eq!(all.len(), 3);
    assert_eq!(all[2].timestamp, 1);
    assert!(!all[2].was_prompted);
    assert_eq!(all[2].app_id, "org.example.App");
    assert_eq!(all[2].decision, None);
}
