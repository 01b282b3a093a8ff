//! Decision logic over the policy store.
//!
//! The engine holds no state of its own beyond a handle to the store — every
//! read is authoritative — plus its one configuration value: the explicit
//! allow-list of filesystem path prefixes that count as sensitive.  The list
//! is empty by default, so filesystem requests are non-sensitive unless the
//! embedding program opts in; this keeps the path heuristic an explicit,
//! configurable extension point rather than a hardcoded rule.

use vstd::prelude::*;

use crate::app_id::AppId;
use crate::database::Database;
use crate::database::app_policies_at;
use crate::database::spec_get_policy;
use crate::database::stored_row;
use crate::database::upsert_all;
use crate::database::upsert_app;
use crate::database::upsert_policy;
use crate::database::lemma_upsert_app_idempotent;
use crate::database::remove_policy;
use crate::database::remove_app_policies;
use crate::database::sweep_expired;
use crate::types::DeviceType;
use crate::types::NetworkLevel;
use crate::types::PermissionType;
use crate::types::PromptDecision;
use crate::types::decision_grants;
use vstd::string::StrSliceExecFns;

verus! {

/// The text of each configured path prefix.
pub open spec fn prefix_views_of(v: Seq<String>) -> Seq<Seq<char>> {
    v.map_values(|x: String| x@)
}

/// Sensitivity classification, a pure function of the permission and the
/// configured sensitive path prefixes.  Internet and LAN network access, the
/// camera, microphone and screen, the clipboard and autostart always require
/// a human decision; a filesystem request does only when its path starts
/// with one of the prefixes.  Everything else — no network access, USB
/// devices, background execution, paths outside the prefixes — is benign.
pub open spec fn spec_is_sensitive_with(p: PermissionType, prefixes: Seq<Seq<char>>) -> bool {
    match p {
        PermissionType::Network(NetworkLevel::Internet) => true,
        PermissionType::Network(NetworkLevel::Lan) => true,
        PermissionType::Network(NetworkLevel::NoAccess) => false,
        PermissionType::Device(DeviceType::Camera) => true,
        PermissionType::Device(DeviceType::Microphone) => true,
        PermissionType::Device(DeviceType::Screen) => true,
        PermissionType::Device(DeviceType::Usb) => false,
        PermissionType::Clipboard => true,
        PermissionType::Autostart => true,
        PermissionType::BackgroundExecution => false,
        PermissionType::Filesystem(f) => exists|i: int|
            0 <= i < prefixes.len() && (#[trigger] prefixes[i]).is_prefix_of(f.path@),
    }
}

/// Sensitivity with no configured path prefixes: every filesystem request is
/// benign.
pub open spec fn spec_is_sensitive(p: PermissionType) -> bool {
    spec_is_sensitive_with(p, Seq::empty())
}

/// Whether `prefix` is a prefix of `s`, character by character.
fn str_has_prefix(s: &String, prefix: &String) -> (r: bool)
    ensures
        r == prefix@.is_prefix_of(s@),
{
    let n = prefix.as_str().unicode_len();
    let m = s.as_str().unicode_len();
    if n > m {
        return false;
    }
    let mut i: usize = 0;
    while i < n
        invariant
            i <= n,
            n == prefix@.len(),
            m == s@.len(),
            n <= m,
            forall|j: int| 0 <= j < i ==> prefix@[j] == s@[j],
        decreases n - i,
    {
        if prefix.as_str().get_char(i) != s.as_str().get_char(i) {
            proof {
                assert(s@.subrange(0, n as int)[i as int] == s@[i as int]);
            }
            return false;
        }
        i += 1;
    }
    proof {
        assert(prefix@ =~= s@.subrange(0, n as int));
    }
    true
}

/// The decision core of the broker: classifies permissions, answers cache
/// lookups with expiry enforcement, stores decisions, and reaps expired
/// rows.  All state lives in the store it owns.
pub struct PolicyEngine {
    db: Database,
    sensitive_path_prefixes: Vec<String>,
}

impl PolicyEngine {
    /// The policy store the engine decides over.
    pub closed spec fn database(&self) -> Database {
        self.db
    }

    /// The configured sensitive path prefixes.
    pub closed spec fn prefixes(&self) -> Seq<String> {
        self.sensitive_path_prefixes@
    }

    /// The text of the configured prefixes.
    pub open spec fn prefix_views(&self) -> Seq<Seq<char>> {
        prefix_views_of(self.prefixes())
    }

    pub open spec fn wf(&self) -> bool {
        self.database().wf()
    }

    /// An engine over `db` with no sensitive path prefixes configured.
    pub fn new(db: Database) -> (r: Self)
        ensures
            r.database() == db,
            r.prefixes() == Seq::<String>::empty(),
    {
        PolicyEngine { db, sensitive_path_prefixes: Vec::new() }
    }

    /// An engine over `db` that additionally treats filesystem paths under
    /// the given prefixes as sensitive.
    pub fn with_sensitive_paths(db: Database, prefixes: Vec<String>) -> (r: Self)
        ensures
            r.database() == db,
            r.prefixes() == prefixes@,
    {
        PolicyEngine { db, sensitive_path_prefixes: prefixes }
    }

    /// Pure base classification, without any configured path prefixes.
    pub fn is_sensitive(permission: &PermissionType) -> (b: bool)
        ensures
            b == spec_is_sensitive(*permission),
    {
        match permission {
            PermissionType::Network(NetworkLevel::Internet) => true,
            PermissionType::Network(NetworkLevel::Lan) => true,
            PermissionType::Network(NetworkLevel::NoAccess) => false,
            PermissionType::Device(DeviceType::Camera) => true,
            PermissionType::Device(DeviceType::Microphone) => true,
            PermissionType::Device(DeviceType::Screen) => true,
            PermissionType::Device(DeviceType::Usb) => false,
            PermissionType::Clipboard => true,
            PermissionType::Autostart => true,
            PermissionType::BackgroundExecution => false,
            PermissionType::Filesystem(_) => false,
        }
    }

    /// Classification under this engine's configuration: as the base
    /// classification, plus filesystem paths that start with one of the
    /// configured prefixes.
    pub fn is_sensitive_permission(&self, permission: &PermissionType) -> (b: bool)
        ensures
            b == spec_is_sensitive_with(*permission, self.prefix_views()),
    {
        match permission {
            PermissionType::Network(NetworkLevel::Internet) => true,
            PermissionType::Network(NetworkLevel::Lan) => true,
            PermissionType::Network(NetworkLevel::NoAccess) => false,
            PermissionType::Device(DeviceType::Camera) => true,
            PermissionType::Device(DeviceType::Microphone) => true,
            PermissionType::Device(DeviceType::Screen) => true,
            PermissionType::Device(DeviceType::Usb) => false,
            PermissionType::Clipboard => true,
            PermissionType::Autostart => true,
            PermissionType::BackgroundExecution => false,
            PermissionType::Filesystem(f) => {
                let n = self.sensitive_path_prefixes.len();
                let mut i: usize = 0;
                let mut found = false;
                while i < n
                    invariant
                        i <= n,
                        n == self.prefixes().len(),
                        found == exists|k: int|
                            0 <= k < i && (#[trigger] self.prefix_views()[k]).is_prefix_of(
                                f.path@,
                            ),
                    decreases n - i,
                {
                    let hit = str_has_prefix(&f.path, &self.sensitive_path_prefixes[i]);
                    proof {
                        assert(self.prefix_views()[i as int]
                            == self.sensitive_path_prefixes@[i as int]@);
                    }
                    if hit {
                        found = true;
                    }
                    i += 1;
                }
                found
            },
        }
    }

    /// Whether a permission check must defer to a human: never when a
    /// current decision is cached, otherwise exactly when the permission is
    /// sensitive under this engine's configuration.
    pub fn should_prompt(&self, app_id: &AppId, permission: &PermissionType, now: i64) -> (r: bool)
        ensures
            r == (spec_get_policy(self.database().policies(), app_id.primary@, *permission, now)
                is None && spec_is_sensitive_with(*permission, self.prefix_views())),
    {
        let decision = self.db.get_policy(app_id, permission, now);
        if decision.is_some() {
            return false;
        }
        self.is_sensitive_permission(permission)
    }

    /// The cached decision for the key at `now`, with expired rows treated
    /// as absent.
    pub fn get_cached_decision(
        &self,
        app_id: &AppId,
        permission: &PermissionType,
        now: i64,
    ) -> (r: Option<PromptDecision>)
        ensures
            r == spec_get_policy(self.database().policies(), app_id.primary@, *permission, now),
    {
        self.db.get_policy(app_id, permission, now)
    }

    /// Persist a decision for the key, upserting its policy row.
    pub fn store_decision(
        &mut self,
        app_id: &AppId,
        permission: &PermissionType,
        decision: PromptDecision,
        now: i64,
    )
        requires
            old(self).wf(),
        ensures
            final(self).wf(),
            final(self).prefixes() == old(self).prefixes(),
            final(self).database().policies() == upsert_policy(
                old(self).database().policies(),
                stored_row(*app_id, *permission, decision, now),
            ),
            final(self).database().applications() == upsert_app(
                old(self).database().applications(),
                *app_id,
                now,
            ),
            final(self).database().audit_log() == old(self).database().audit_log(),
    {
        self.db.store_policy(app_id, permission, &decision, now);
    }

    /// All current decisions recorded for the application.
    pub fn get_app_policy(&self, app_id: &AppId, now: i64) -> (r: Vec<
        (PermissionType, PromptDecision),
    >)
        ensures
            r@ == app_policies_at(self.database().policies(), app_id.primary@, now),
    {
        self.db.get_app_policies(app_id, now)
    }

    /// Store every (permission, decision) pair of the list for the
    /// application, first to last.  Each upsert is independent: this is a
    /// best-effort bulk write, not a transaction.
    pub fn update_app_policy(
        &mut self,
        app_id: &AppId,
        policies: Vec<(PermissionType, PromptDecision)>,
        now: i64,
    )
        requires
            old(self).wf(),
        ensures
            final(self).wf(),
            final(self).prefixes() == old(self).prefixes(),
            final(self).database().policies() == upsert_all(
                old(self).database().policies(),
                *app_id,
                policies@,
                now,
            ),
            final(self).database().applications() == if policies@.len() == 0 {
                old(self).database().applications()
            } else {
                upsert_app(old(self).database().applications(), *app_id, now)
            },
            final(self).database().audit_log() == old(self).database().audit_log(),
    {
        let n = policies.len();
        let mut i: usize = 0;
        proof {
            assert(policies@.skip(0) =~= policies@);
        }
        while i < n
            invariant
                i <= n,
                n == policies@.len(),
                self.wf(),
                self.prefixes() == old(self).prefixes(),
                upsert_all(old(self).database().policies(), *app_id, policies@, now)
                    == upsert_all(
                    self.database().policies(),
                    *app_id,
                    policies@.skip(i as int),
                    now,
                ),
                self.database().applications() == if i == 0 {
                    old(self).database().applications()
                } else {
                    upsert_app(old(self).database().applications(), *app_id, now)
                },
                self.database().audit_log() == old(self).database().audit_log(),
            decreases n - i,
        {
            let ghost apps_before = self.database().applications();
            let pair = &policies[i];
            proof {
                assert(policies@.skip(i as int).drop_first() =~= policies@.skip(i + 1));
                assert(policies@.skip(i as int)[0] == policies@[i as int]);
            }
            self.db.store_policy(app_id, &pair.0, &pair.1, now);
            proof {
                if i > 0 {
                    lemma_upsert_app_idempotent(
                        old(self).database().applications(),
                        *app_id,
                        now,
                    );
                }
            }
            i += 1;
        }
        proof {
            assert(policies@.skip(n as int)
                =~= Seq::<(PermissionType, PromptDecision)>::empty());
        }
    }

    /// The grant outcome of the cached decision for the key, when one is
    /// current: allow kinds grant, deny kinds do not, and no row (or an
    /// expired one) yields no outcome.
    pub fn evaluate_permission(
        &self,
        app_id: &AppId,
        permission: &PermissionType,
        now: i64,
    ) -> (r: Option<bool>)
        ensures
            r == match spec_get_policy(
                self.database().policies(),
                app_id.primary@,
                *permission,
                now,
            ) {
                Option::Some(d) => Option::Some(decision_grants(d)),
                Option::None => Option::<bool>::None,
            },
    {
        match self.db.get_policy(app_id, permission, now) {
            Some(decision) => Some(crate::grants(&decision)),
            None => None,
        }
    }

    /// Delete the policy row of the key.
    pub fn delete_policy(&mut self, app_id: &AppId, permission: &PermissionType)
        requires
            old(self).wf(),
        ensures
            final(self).wf(),
            final(self).prefixes() == old(self).prefixes(),
            final(self).database().policies() == remove_policy(
                old(self).database().policies(),
                app_id.primary@,
                *permission,
            ),
            final(self).database().applications() == old(self).database().applications(),
            final(self).database().audit_log() == old(self).database().audit_log(),
    {
        self.db.delete_policy(app_id, permission);
    }

    /// Delete every policy row of the application.
    pub fn delete_app_policy(&mut self, app_id: &AppId)
        requires
            old(self).wf(),
        ensures
            final(self).wf(),
            final(self).prefixes() == old(self).prefixes(),
            final(self).database().policies() == remove_app_policies(
                old(self).database().policies(),
                app_id.primary@,
            ),
            final(self).database().applications() == old(self).database().applications(),
            final(self).database().audit_log() == old(self).database().audit_log(),
    {
        self.db.delete_app_policies(app_id);
    }

    /// Reap every policy row whose expiry lies strictly in the past; says
    /// how many went.
    pub fn cleanup_expired(&mut self, now: i64) -> (count: usize)
        requires
            old(self).wf(),
        ensures
            final(self).wf(),
            final(self).prefixes() == old(self).prefixes(),
            final(self).database().policies() == sweep_expired(
                old(self).database().policies(),
                now,
            ),
            count == old(self).database().policies().len() - final(self).database().policies().len(),
            final(self).database().applications() == old(self).database().applications(),
            final(self).database().audit_log() == old(self).database().audit_log(),
    {
        self.db.cleanup_expired_policies(now)
    }
}

} // verus!
