//! Administrative-action authorization interface.
//!
//! Administrative operations — editing or deleting policy, reading the audit
//! log, changing configuration — are gated behind the system authority.  The
//! core only names the actions and ships the policy description; asking the
//! authority itself is the embedding program's business.

use vstd::prelude::*;

use crate::error::ApfError;

verus! {

/// The policy-configuration document that declares the administrative
/// actions to the system authority.
pub open spec fn spec_polkit_policy() -> Seq<char> {
    "<?xml version=\"1.0\" encoding=\"UTF-8\"?>\n<!DOCTYPE policyconfig PUBLIC\n \"-//freedesktop//DTD PolicyKit Policy Configuration 1.0//EN\"\n \"http://www.freedesktop.org/standards/PolicyKit/1.0/policyconfig.dtd\">\n<policyconfig>\n  <vendor>AppFence</vendor>\n  <vendor_url>https://github.com/yourusername/appfence</vendor_url>\n\n  <action id=\"org.apf.policy.update\">\n    <description>Update application permission policy</description>\n    <message>Authentication is required to update application permissions</message>\n    <icon_name>security-high</icon_name>\n    <defaults>\n      <allow_any>auth_admin</allow_any>\n      <allow_inactive>auth_admin</allow_inactive>\n      <allow_active>auth_admin_keep</allow_active>\n    </defaults>\n  </action>\n\n  <action id=\"org.apf.policy.delete\">\n    <description>Delete application permission policy</description>\n    <message>Authentication is required to delete application permissions</message>\n    <icon_name>security-high</icon_name>\n    <defaults>\n      <allow_any>auth_admin</allow_any>\n      <allow_inactive>auth_admin</allow_inactive>\n      <allow_active>auth_admin_keep</allow_active>\n    </defaults>\n  </action>\n\n  <action id=\"org.apf.audit.view\">\n    <description>View system audit logs</description>\n    <message>Authentication is required to view audit logs</message>\n    <icon_name>security-medium</icon_name>\n    <defaults>\n      <allow_any>auth_admin</allow_any>\n      <allow_inactive>auth_admin</allow_inactive>\n      <allow_active>auth_self_keep</allow_active>\n    </defaults>\n  </action>\n\n  <action id=\"org.apf.config.modify\">\n    <description>Modify AppFence system configuration</description>\n    <message>Authentication is required to modify system configuration</message>\n    <icon_name>security-high</icon_name>\n    <defaults>\n      <allow_any>auth_admin</allow_any>\n      <allow_inactive>auth_admin</allow_inactive>\n      <allow_active>auth_admin_keep</allow_active>\n    </defaults>\n  </action>\n</policyconfig>\n"@
}

/// The administrative actions the daemon gates behind the system authority.
#[derive(Debug, Clone, Copy)]
pub enum PolkitAction {
    UpdatePolicy,
    DeletePolicy,
    ViewAuditLog,
    ModifySystemConfig,
}

impl PolkitAction {
    /// The system-wide identifier of the action.
    pub open spec fn spec_action_id(&self) -> Seq<char> {
        match self {
            PolkitAction::UpdatePolicy => "org.apf.policy.update"@,
            PolkitAction::DeletePolicy => "org.apf.policy.delete"@,
            PolkitAction::ViewAuditLog => "org.apf.audit.view"@,
            PolkitAction::ModifySystemConfig => "org.apf.config.modify"@,
        }
    }

    /// What the action means, for display.
    pub open spec fn spec_description(&self) -> Seq<char> {
        match self {
            PolkitAction::UpdatePolicy => "Update application permission policy"@,
            PolkitAction::DeletePolicy => "Delete application permission policy"@,
            PolkitAction::ViewAuditLog => "View system audit logs"@,
            PolkitAction::ModifySystemConfig => "Modify AppFence system configuration"@,
        }
    }

    pub fn as_str(&self) -> (r: &str)
        ensures
            r@ == self.spec_action_id(),
    {
        match self {
            PolkitAction::UpdatePolicy => "org.apf.policy.update",
            PolkitAction::DeletePolicy => "org.apf.policy.delete",
            PolkitAction::ViewAuditLog => "org.apf.audit.view",
            PolkitAction::ModifySystemConfig => "org.apf.config.modify",
        }
    }

    pub fn description(&self) -> (r: &str)
        ensures
            r@ == self.spec_description(),
    {
        match self {
            PolkitAction::UpdatePolicy => "Update application permission policy",
            PolkitAction::DeletePolicy => "Delete application permission policy",
            PolkitAction::ViewAuditLog => "View system audit logs",
            PolkitAction::ModifySystemConfig => "Modify AppFence system configuration",
        }
    }
}

/// A handle on the system authority.  Checking an authorization runs an
/// external program and happens outside this crate; the handle itself
/// carries no state.
#[derive(Debug)]
pub struct PolkitAuthority {}

impl PolkitAuthority {
    /// A fresh handle; creating one cannot fail.
    pub fn new() -> (r: Result<PolkitAuthority, ApfError>)
        ensures
            r is Ok,
    {
        Ok(PolkitAuthority {  })
    }
}

/// The one place the document's text lives outside the specification.
fn polkit_policy_text() -> (r: &'static str)
    ensures
        r@ == spec_polkit_policy(),
{
    "<?xml version=\"1.0\" encoding=\"UTF-8\"?>\n<!DOCTYPE policyconfig PUBLIC\n \"-//freedesktop//DTD PolicyKit Policy Configuration 1.0//EN\"\n \"http://www.freedesktop.org/standards/PolicyKit/1.0/policyconfig.dtd\">\n<policyconfig>\n  <vendor>AppFence</vendor>\n  <vendor_url>https://github.com/yourusername/appfence</vendor_url>\n\n  <action id=\"org.apf.policy.update\">\n    <description>Update application permission policy</description>\n    <message>Authentication is required to update application permissions</message>\n    <icon_name>security-high</icon_name>\n    <defaults>\n      <allow_any>auth_admin</allow_any>\n      <allow_inactive>auth_admin</allow_inactive>\n      <allow_active>auth_admin_keep</allow_active>\n    </defaults>\n  </action>\n\n  <action id=\"org.apf.policy.delete\">\n    <description>Delete application permission policy</description>\n    <message>Authentication is required to delete application permissions</message>\n    <icon_name>security-high</icon_name>\n    <defaults>\n      <allow_any>auth_admin</allow_any>\n      <allow_inactive>auth_admin</allow_inactive>\n      <allow_active>auth_admin_keep</allow_active>\n    </defaults>\n  </action>\n\n  <action id=\"org.apf.audit.view\">\n    <description>View system audit logs</description>\n    <message>Authentication is required to view audit logs</message>\n    <icon_name>security-medium</icon_name>\n    <defaults>\n      <allow_any>auth_admin</allow_any>\n      <allow_inactive>auth_admin</allow_inactive>\n      <allow_active>auth_self_keep</allow_active>\n    </defaults>\n  </action>\n\n  <action id=\"org.apf.config.modify\">\n    <description>Modify AppFence system configuration</description>\n    <message>Authentication is required to modify system configuration</message>\n    <icon_name>security-high</icon_name>\n    <defaults>\n      <allow_any>auth_admin</allow_any>\n      <allow_inactive>auth_admin</allow_inactive>\n      <allow_active>auth_admin_keep</allow_active>\n    </defaults>\n  </action>\n</policyconfig>\n"
}

/// The policy-configuration document, as an owned string.
pub fn generate_polkit_policy() -> (r: String)
    ensures
        r@ == spec_polkit_policy(),
{
    polkit_policy_text().to_owned()
}

} // verus!
