//! Permission descriptors and prompt decisions.
//!
//! Permissions form a closed set of capability requests; decisions record the
//! outcome of resolving one request.  Both are value types with structural
//! equality and are used together with an application identity as the policy
//! key.

use vstd::prelude::*;

verus! {

/// How far a network capability reaches.
#[derive(Debug, Clone, Copy, PartialEq, Eq, Structural)]
pub enum NetworkLevel {
    NoAccess,
    Lan,
    Internet,
}

/// Access requested on a filesystem path.
#[derive(Debug, Clone, Copy, PartialEq, Eq, Structural)]
pub enum AccessMode {
    ReadOnly,
    ReadWrite,
    Deny,
}

/// A device capability.
#[derive(Debug, Clone, Copy, PartialEq, Eq, Structural)]
pub enum DeviceType {
    Microphone,
    Camera,
    Screen,
    Usb,
}

/// How strongly a decision is enforced by the isolation backend.
#[derive(Debug, Clone, Copy, PartialEq, Eq, Structural)]
pub enum EnforcementStrength {
    /// Sandbox, namespace and cgroup isolation.
    Strong,
    /// OS-level restrictions.
    Medium,
    /// Audit and warning only.
    Weak,
}

/// A filesystem capability request: a path and the access wanted on it.
#[derive(Debug)]
pub struct FilesystemAccess {
    pub path: String,
    pub mode: AccessMode,
}

/// A capability request, the closed set of permission categories.
#[derive(Debug)]
pub enum PermissionType {
    Network(NetworkLevel),
    Filesystem(FilesystemAccess),
    Device(DeviceType),
    Clipboard,
    BackgroundExecution,
    Autostart,
}

/// Outcome of a human (or cached) decision.  `AllowDuration` carries the
/// validity span in seconds.  Only `AllowAlways`, `DenyAlways` and
/// `AllowDuration` are ever persisted; the `Once` kinds are transient.
#[derive(Debug, Clone, Copy, PartialEq, Eq, Structural)]
pub enum PromptDecision {
    AllowOnce,
    AllowAlways,
    DenyOnce,
    DenyAlways,
    AllowDuration(u64),
}

/// The process context attached to a permission request.
#[derive(Debug)]
pub struct ProcessInfo {
    pub pid: u32,
    pub uid: u32,
    pub gid: u32,
    pub executable: String,
    pub cmdline: Vec<String>,
}

/// True for the decision kinds that grant access to the requested capability.
pub open spec fn decision_grants(d: PromptDecision) -> bool {
    match d {
        PromptDecision::AllowOnce => true,
        PromptDecision::AllowAlways => true,
        PromptDecision::AllowDuration(_) => true,
        PromptDecision::DenyOnce => false,
        PromptDecision::DenyAlways => false,
    }
}

/// True for the decision kinds that are persisted as policy rows; the `Once`
/// kinds are transient, audited but never cached.
pub open spec fn decision_persists(d: PromptDecision) -> bool {
    match d {
        PromptDecision::AllowAlways => true,
        PromptDecision::DenyAlways => true,
        PromptDecision::AllowDuration(_) => true,
        PromptDecision::AllowOnce => false,
        PromptDecision::DenyOnce => false,
    }
}

/// Outcome of a resolved decision: allow kinds grant, deny kinds do not.
pub fn grants(d: &PromptDecision) -> (r: bool)
    ensures
        r == decision_grants(*d),
{
    match d {
        PromptDecision::AllowOnce => true,
        PromptDecision::AllowAlways => true,
        PromptDecision::AllowDuration(_) => true,
        PromptDecision::DenyOnce => false,
        PromptDecision::DenyAlways => false,
    }
}

/// Whether a decision is one of the kinds the store persists.
pub fn persists(d: &PromptDecision) -> (r: bool)
    ensures
        r == decision_persists(*d),
{
    match d {
        PromptDecision::AllowAlways => true,
        PromptDecision::DenyAlways => true,
        PromptDecision::AllowDuration(_) => true,
        PromptDecision::AllowOnce => false,
        PromptDecision::DenyOnce => false,
    }
}

impl Clone for FilesystemAccess {
    fn clone(&self) -> (r: Self)
        ensures
            r == *self,
    {
        FilesystemAccess { path: self.path.clone(), mode: self.mode }
    }
}

impl Clone for PermissionType {
    fn clone(&self) -> (r: Self)
        ensures
            r == *self,
    {
        match self {
            PermissionType::Network(l) => PermissionType::Network(*l),
            PermissionType::Filesystem(f) => PermissionType::Filesystem(f.clone()),
            PermissionType::Device(d) => PermissionType::Device(*d),
            PermissionType::Clipboard => PermissionType::Clipboard,
            PermissionType::BackgroundExecution => PermissionType::BackgroundExecution,
            PermissionType::Autostart => PermissionType::Autostart,
        }
    }
}

/// Equality of filesystem requests: same path text and same mode.
pub open spec fn fs_access_eq(a: &FilesystemAccess, b: &FilesystemAccess) -> bool {
    a.path@ == b.path@ && a.mode == b.mode
}

/// Equality of permissions, the relation under which a permission is one half
/// of a policy key: structural, with paths compared by their text.
pub open spec fn perm_eq(a: &PermissionType, b: &PermissionType) -> bool {
    match (a, b) {
        (PermissionType::Network(x), PermissionType::Network(y)) => x == y,
        (PermissionType::Filesystem(x), PermissionType::Filesystem(y)) => fs_access_eq(x, y),
        (PermissionType::Device(x), PermissionType::Device(y)) => x == y,
        (PermissionType::Clipboard, PermissionType::Clipboard) => true,
        (PermissionType::BackgroundExecution, PermissionType::BackgroundExecution) => true,
        (PermissionType::Autostart, PermissionType::Autostart) => true,
        _ => false,
    }
}

/// Permission equality is reflexive.
pub proof fn lemma_perm_eq_refl(a: &PermissionType)
    ensures
        perm_eq(a, a),
{
}

/// Permission equality is symmetric.
pub proof fn lemma_perm_eq_sym(a: &PermissionType, b: &PermissionType)
    ensures
        perm_eq(a, b) == perm_eq(b, a),
{
}

/// Permission equality is transitive.
pub proof fn lemma_perm_eq_trans(a: &PermissionType, b: &PermissionType, c: &PermissionType)
    requires
        perm_eq(a, b),
        perm_eq(b, c),
    ensures
        perm_eq(a, c),
{
}

impl PartialEq for FilesystemAccess {
    fn eq(&self, other: &Self) -> (r: bool) {
        self.path == other.path && self.mode == other.mode
    }
}

impl vstd::std_specs::cmp::PartialEqSpecImpl for FilesystemAccess {
    open spec fn obeys_eq_spec() -> bool {
        true
    }

    open spec fn eq_spec(&self, other: &Self) -> bool {
        fs_access_eq(self, other)
    }
}

impl Eq for FilesystemAccess {}

impl PartialEq for PermissionType {
    fn eq(&self, other: &Self) -> (r: bool) {
        match (self, other) {
            (PermissionType::Network(x), PermissionType::Network(y)) => x == y,
            (PermissionType::Filesystem(x), PermissionType::Filesystem(y)) => x == y,
            (PermissionType::Device(x), PermissionType::Device(y)) => x == y,
            (PermissionType::Clipboard, PermissionType::Clipboard) => true,
            (PermissionType::BackgroundExecution, PermissionType::BackgroundExecution) => true,
            (PermissionType::Autostart, PermissionType::Autostart) => true,
            _ => false,
        }
    }
}

impl vstd::std_specs::cmp::PartialEqSpecImpl for PermissionType {
    open spec fn obeys_eq_spec() -> bool {
        true
    }

    open spec fn eq_spec(&self, other: &Self) -> bool {
        perm_eq(self, other)
    }
}

impl Eq for PermissionType {}

} // verus!
