use appfence::polkit::PolkitAction;
use appfence::polkit::PolkitAuthority;
use appfence::polkit::generate_polkit_policy;

#[test]
fn test_action_identifiers() {
    assert_eq!(PolkitAction::UpdatePolicy.as_str(), "org.apf.policy.update");
    assert_eq!(PolkitAction::DeletePolicy.as_str(), "org.apf.policy.delete");
}

#[test]
fn test_policy_generation() {
    let policy = generate_polkit_policy();
    assert!(policy.contains("org.apf.policy.update"));
    assert!(policy.contains("org.apf.audit.view"));
}

#[test]
fn test_authority_creation() {
    let authority = PolkitAuthority::new();
    assert!(authority.is_ok());
}

#[test]
fn action_descriptions() {
    assert_eq!(
        PolkitAction::ViewAuditLog.description(),
        "View system audit logs"
    );
    assert_eq!(PolkitAction::ViewAuditLog.as_str(), "org.apf.audit.view");
    assert_eq!(
        PolkitAction::ModifySystemConfig.as_str(),
        "org.apf.config.modify"
    );
}
