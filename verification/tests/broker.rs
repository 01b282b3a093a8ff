use appfence::AppId;
use appfence::audit::AuditLogger;
use appfence::broker::DaemonService;
use appfence::database::Database;
use appfence::error::ApfError;
use appfence::policy_engine::PolicyEngine;
use appfence::types::AccessMode;
use appfence::types::DeviceType;
use appfence::types::FilesystemAccess;
use appfence::types::NetworkLevel;
use appfence::types::PermissionType;
use appfence::types::PromptDecision;

fn service() -> DaemonService {
    let engine = PolicyEngine::new(Database::new());
    let logger = AuditLogger::new(Database::new());
    DaemonService::new(engine, logger)
}

fn app(name: &str) -> AppId {
    AppId::from_flatpak(name.to_string())
}

#[test]
fn cached_allow_always_answers_without_prompt() {
    let mut svc = service();
    let a = app("org.example.App");
    let net = PermissionType::Network(NetworkLevel::Internet);

    // Prime the cache through the prompt flow.
    let (prompt, id, _) = svc.request_permission(a.clone(), 10, 1000, net.clone(), 50);
    assert!(prompt);
    assert!(svc.submit_decision(id, PromptDecision::AllowAlways, 60).unwrap());

    // Cached hit: no prompt, granted, exactly one more audit entry,
    // unprompted.
    let before = svc.get_audit_log(100).len();
    let (prompt, id, granted) = svc.request_permission(a.clone(), 11, 1000, net.clone(), 70);
    assert!(!prompt);
    assert_eq!(id, "");
    assert!(granted);
    let log = svc.get_audit_log(100);
    assert_eq!(log.len(), before + 1);
    assert!(log[0].granted);
    assert!(!log[0].was_prompted);
    assert_eq!(log[0].pid, 11);
    assert_eq!(log[0].app_id, "org.example.App");
    assert_eq!(log[0].permission, net);
}

#[test]
fn uncached_sensitive_requires_prompt_and_once_is_transient() {
    let mut svc = service();
    let a = app("org.example.App");
    let cam = PermissionType::Device(DeviceType::Camera);

    let (prompt, id, granted) = svc.request_permission(a.clone(), 10, 1000, cam.clone(), 50);
    assert!(prompt);
    assert!(!id.is_empty());
    assert!(!granted);
    // The check is unresolved: no audit entry yet.
    assert_eq!(svc.get_audit_log(100).len(), 0);

    // A transient decision grants but stores no policy row.
    assert!(svc.submit_decision(id, PromptDecision::AllowOnce, 60).unwrap());
    let log = svc.get_audit_log(100);
    assert_eq!(log.len(), 1);
    assert!(log[0].granted);
    assert!(log[0].was_prompted);
    assert_eq!(svc.get_app_policy(&a, 60).len(), 0);

    // So the next check must prompt again.
    let (prompt, _, granted) = svc.request_permission(a.clone(), 10, 1000, cam.clone(), 70);
    assert!(prompt);
    assert!(!granted);
}

#[test]
fn second_submission_with_the_same_token_fails() {
    let mut svc = service();
    let a = app("org.example.App");
    let clip = PermissionType::Clipboard;

    let (prompt, id, _) = svc.request_permission(a, 10, 1000, clip, 50);
    assert!(prompt);
    assert!(svc.submit_decision(id.clone(), PromptDecision::AllowOnce, 60).unwrap());
    let second = svc.submit_decision(id, PromptDecision::AllowOnce, 61);
    assert!(matches!(second, Err(ApfError::RequestNotFound(_))));
}

#[test]
fn fabricated_token_fails() {
    let mut svc = service();
    let outcome = svc.submit_decision("req-made-up".to_string(), PromptDecision::AllowOnce, 1);
    assert!(matches!(outcome, Err(ApfError::RequestNotFound(_))));
}

#[test]
fn uncached_non_sensitive_is_denied_by_default() {
    let mut svc = service();
    let a = app("org.example.App");
    let bg = PermissionType::BackgroundExecution;

    let (prompt, id, granted) = svc.request_permission(a, 10, 1000, bg.clone(), 50);
    assert!(!prompt);
    assert_eq!(id, "");
    assert!(!granted);
    let log = svc.get_audit_log(100);
    assert_eq!(log.len(), 1);
    assert!(!log[0].granted);
    assert!(!log[0].was_prompted);
    assert_eq!(log[0].permission, bg);
}

#[test]
fn deny_always_is_cached_and_denies_silently() {
    let mut svc = service();
    let a = app("org.example.App");
    let mic = PermissionType::Device(DeviceType::Microphone);

    let (_, id, _) = svc.request_permission(a.clone(), 10, 1000, mic.clone(), 50);
    assert!(!svc.submit_decision(id, PromptDecision::DenyAlways, 60).unwrap());
    assert_eq!(svc.get_app_policy(&a, 60).len(), 1);

    let (prompt, _, granted) = svc.request_permission(a, 10, 1000, mic, 70);
    assert!(!prompt);
    assert!(!granted);
}

#[test]
fn duration_decision_expires_for_the_broker_too() {
    let mut svc = service();
    let a = app("org.example.App");
    let net = PermissionType::Network(NetworkLevel::Lan);

    let (_, id, _) = svc.request_permission(a.clone(), 10, 1000, net.clone(), 100);
    // Valid until 160.
    assert!(svc.submit_decision(id, PromptDecision::AllowDuration(60), 100).unwrap());

    let (prompt, _, granted) = svc.request_permission(a.clone(), 10, 1000, net.clone(), 159);
    assert!(!prompt);
    assert!(granted);

    // At the expiry boundary the cache is empty again: prompt required.
    let (prompt, id, granted) = svc.request_permission(a, 10, 1000, net, 160);
    assert!(prompt);
    assert!(!id.is_empty());
    assert!(!granted);
}

#[test]
fn filesystem_sensitivity_follows_the_configured_prefixes() {
    let engine = PolicyEngine::with_sensitive_paths(
        Database::new(),
        vec!["/home".to_string(), "/etc".to_string()],
    );
    let logger = AuditLogger::new(Database::new());
    let mut svc = DaemonService::new(engine, logger);
    let a = app("org.example.App");

    let under_home = PermissionType::Filesystem(FilesystemAccess {
        path: "/home/user/Documents/notes.txt".to_string(),
        mode: AccessMode::ReadWrite,
    });
    let under_tmp = PermissionType::Filesystem(FilesystemAccess {
        path: "/tmp/scratch".to_string(),
        mode: AccessMode::ReadWrite,
    });

    let (prompt, _, _) = svc.request_permission(a.clone(), 10, 1000, under_home, 50);
    assert!(prompt);
    let (prompt, _, granted) = svc.request_permission(a, 10, 1000, under_tmp, 50);
    assert!(!prompt);
    assert!(!granted);
}

#[test]
fn filesystem_is_benign_without_configured_prefixes() {
    let mut svc = service();
    let a = app("org.example.App");
    let fs = PermissionType::Filesystem(FilesystemAccess {
        path: "/home/user/Documents/notes.txt".to_string(),
        mode: AccessMode::ReadOnly,
    });
    let (prompt, _, granted) = svc.request_permission(a, 10, 1000, fs, 50);
    assert!(!prompt);
    assert!(!granted);
}

#[test]
fn bulk_policy_update_and_enumeration() {
    let mut svc = service();
    let a = app("org.example.App");
    let net = PermissionType::Network(NetworkLevel::Internet);
    let clip = PermissionType::Clipboard;

    svc.update_app_policy(
        &a,
        vec![
            (net.clone(), PromptDecision::AllowAlways),
            (clip.clone(), PromptDecision::DenyAlways),
        ],
        50,
    );

    let policy = svc.get_app_policy(&a, 60);
    assert_eq!(policy.len(), 2);
    assert_eq!(policy[0], (net.clone(), PromptDecision::AllowAlways));
    assert_eq!(policy[1], (clip, PromptDecision::DenyAlways));

    // The cache now answers without a prompt.
    let (prompt, _, granted) = svc.request_permission(a, 10, 1000, net, 70);
    assert!(!prompt);
    assert!(granted);
}

#[test]
fn engine_queries() {
    let mut engine = PolicyEngine::new(Database::new());
    let a = app("org.example.App");
    let net = PermissionType::Network(NetworkLevel::Internet);
    let usb = PermissionType::Device(DeviceType::Usb);

    assert!(engine.should_prompt(&a, &net, 10));
    assert!(!engine.should_prompt(&a, &usb, 10));
    assert_eq!(engine.evaluate_permission(&a, &net, 10), None);

    engine.store_decision(&a, &net, PromptDecision::DenyAlways, 10);
    assert!(!engine.should_prompt(&a, &net, 20));
    assert_eq!(engine.get_cached_decision(&a, &net, 20), Some(PromptDecision::DenyAlways));
    assert_eq!(engine.evaluate_permission(&a, &net, 20), Some(false));

    engine.delete_policy(&a, &net);
    assert_eq!(engine.get_cached_decision(&a, &net, 30), None);
}

#[test]
fn engine_cleanup_counts_removed_rows() {
    let mut engine = PolicyEngine::new(Database::new());
    let a = app("org.example.App");
    let net = PermissionType::Network(NetworkLevel::Internet);
    let clip = PermissionType::Clipboard;

    engine.store_decision(&a, &net, PromptDecision::AllowDuration(5), 10);
    engine.store_decision(&a, &clip, PromptDecision::AllowAlways, 10);
    assert_eq!(engine.cleanup_expired(100), 1);
    assert_eq!(engine.get_cached_decision(&a, &clip, 100), Some(PromptDecision::AllowAlways));
}

#[test]
fn classification_of_the_usual_suspects() {
    assert!(PolicyEngine::is_sensitive(&PermissionType::Network(NetworkLevel::Internet)));
    assert!(PolicyEngine::is_sensitive(&PermissionType::Device(DeviceType::Camera)));
    assert!(!PolicyEngine::is_sensitive(&PermissionType::Network(NetworkLevel::NoAccess)));
    assert!(!PolicyEngine::is_sensitive(&PermissionType::Device(DeviceType::Usb)));
    // Pure: the same input classifies the same way every time.
    let p = PermissionType::Network(NetworkLevel::Internet);
    assert_eq!(PolicyEngine::is_sensitive(&p), PolicyEngine::is_sensitive(&p));
}

#[test]
fn stale_pending_requests_are_evicted() {
    let mut svc = service();
    let a = app("org.example.App");
    let cam = PermissionType::Device(DeviceType::Camera);

    let (_, id_old, _) = svc.request_permission(a.clone(), 10, 1000, cam, 100);
    let (_, id_new, _) = svc.request_permission(a, 11, 1000, PermissionType::Clipboard, 350);

    // Lifetime is 300 seconds: at 400 the first entry is exactly at the end
    // of its life and still honored; at 401 it is gone.
    assert_eq!(svc.evict_stale_pending(400), 0);
    assert_eq!(svc.evict_stale_pending(401), 1);

    let stale = svc.submit_decision(id_old, PromptDecision::AllowOnce, 402);
    assert!(matches!(stale, Err(ApfError::RequestNotFound(_))));
    assert!(svc.submit_decision(id_new, PromptDecision::AllowOnce, 402).unwrap());
}

#[test]
fn ping_pongs() {
    let svc = service();
    assert_eq!(svc.ping(), "pong");
}
