//! The request broker: one permission check end to end.
//!
//! A check proceeds through one of three paths.  A current cached decision
//! resolves it immediately, audited as unprompted.  With no cached decision,
//! a non-sensitive permission is denied by default, audited as unprompted.
//! A sensitive permission mints a fresh request token, parks the full
//! request context in the in-memory pending table, and answers "prompt
//! required" — no audit entry yet, since the check is unresolved.  Decision
//! submission consumes the pending entry exactly once (a second submission
//! with the same token fails with `RequestNotFound`), persists the decision
//! when its kind warrants it — before the audit entry is written, so a
//! concurrent lookup never sees the audit without the policy row — and
//! audits the outcome as prompted.
//!
//! Caller credential verification and payload parsing happen outside, before
//! any of this runs; the broker receives already-parsed values.

use vstd::prelude::*;

use crate::app_id::AppId;
use crate::audit::AuditEntryView;
use crate::audit::AuditLogger;
use crate::audit::entry_view;
use crate::database::AppRecord;
use crate::database::AuditEntry;
use crate::database::PolicyRow;
use crate::database::app_policies_at;
use crate::database::recent_audit;
use crate::database::spec_get_policy;
use crate::database::stored_row;
use crate::database::upsert_all;
use crate::database::upsert_app;
use crate::database::upsert_policy;
use crate::error::ApfError;
use crate::policy_engine::PolicyEngine;
use crate::policy_engine::prefix_views_of;
use crate::policy_engine::spec_is_sensitive_with;
use crate::types::PermissionType;
use crate::types::PromptDecision;
use crate::types::decision_grants;
use crate::types::decision_persists;
use crate::types::grants;
use crate::types::persists;
use vstd::string::StringExecFns;

verus! {

/// An opaque token naming one in-flight permission check.
#[derive(Debug)]
pub struct RequestId(pub String);

impl RequestId {
    /// A fresh request token.  Relies on uuid::Uuid::new_v4, a random
    /// version-4 UUID, prefixed with the current clock reading in
    /// nanoseconds; nothing is promised of the text beyond being non-empty.
    #[verifier::external_body]
    pub fn new() -> (r: RequestId)
        ensures
            r.0@.len() > 0,
    {
        let timestamp = std::time::SystemTime::now()
            .duration_since(std::time::UNIX_EPOCH)
            .map(|d| d.as_nanos())
            .unwrap_or(0);
        RequestId(format!("req-{}-{}", timestamp, uuid::Uuid::new_v4()))
    }
}

impl Clone for RequestId {
    fn clone(&self) -> (r: Self)
        ensures
            r == *self,
    {
        RequestId(self.0.clone())
    }
}

/// One sensitive permission check awaiting a human decision.  Transient and
/// in-memory only: never persisted, consumed exactly once by decision
/// submission, reclaimed on restart.
#[derive(Debug)]
pub struct PermissionRequest {
    pub request_id: RequestId,
    pub app_id: AppId,
    pub pid: u32,
    pub uid: u32,
    pub permission: PermissionType,
    pub timestamp: i64,
}

impl Clone for PermissionRequest {
    fn clone(&self) -> (r: Self)
        ensures
            r == *self,
    {
        PermissionRequest {
            request_id: self.request_id.clone(),
            app_id: self.app_id.clone(),
            pid: self.pid,
            uid: self.uid,
            permission: self.permission.clone(),
            timestamp: self.timestamp,
        }
    }
}

/// Whether a pending entry carries the token text.
pub open spec fn pending_id_matches(r: PermissionRequest, id: Seq<char>) -> bool {
    r.request_id.0@ == id
}

/// The first pending entry under the token, `None` when the token is
/// unknown.
pub open spec fn lookup_pending(s: Seq<PermissionRequest>, id: Seq<char>) -> Option<
    PermissionRequest,
>
    decreases s.len(),
{
    if s.len() == 0 {
        Option::None
    } else if pending_id_matches(s[0], id) {
        Option::Some(s[0])
    } else {
        lookup_pending(s.drop_first(), id)
    }
}

/// The pending table with every entry under the token removed.
pub open spec fn remove_pending(s: Seq<PermissionRequest>, id: Seq<char>) -> Seq<PermissionRequest>
    decreases s.len(),
{
    if s.len() == 0 {
        Seq::empty()
    } else if pending_id_matches(s[0], id) {
        remove_pending(s.drop_first(), id)
    } else {
        seq![s[0]] + remove_pending(s.drop_first(), id)
    }
}

/// How long a pending request lives before eviction, in seconds.  An
/// unresolved prompt must not be honorable arbitrarily late, and the pending
/// table must not grow without bound; five minutes is a conservative
/// default.
pub const PENDING_TTL_SECS: i64 = 300;

/// Whether a pending entry has outlived its lifetime at `now`.
pub open spec fn pending_stale(r: PermissionRequest, now: i64) -> bool {
    r.timestamp as int + PENDING_TTL_SECS < now as int
}

/// The pending table with every stale entry evicted.
pub open spec fn sweep_pending(s: Seq<PermissionRequest>, now: i64) -> Seq<PermissionRequest>
    decreases s.len(),
{
    if s.len() == 0 {
        Seq::empty()
    } else {
        let rest = sweep_pending(s.drop_last(), now);
        if pending_stale(s.last(), now) {
            rest
        } else {
            rest.push(s.last())
        }
    }
}

/// A decision token is consumed exactly once: once its entry has been
/// removed from the pending table, a lookup of the same token finds nothing,
/// so a second submission with that token must fail with `RequestNotFound`
/// and can never re-apply the decision.
pub proof fn lemma_removed_id_not_found(s: Seq<PermissionRequest>, id: Seq<char>)
    ensures
        lookup_pending(remove_pending(s, id), id) is None,
    decreases s.len(),
{
    if s.len() == 0 {
        assert(remove_pending(s, id) =~= Seq::<PermissionRequest>::empty());
    } else if pending_id_matches(s[0], id) {
        lemma_removed_id_not_found(s.drop_first(), id);
    } else {
        lemma_removed_id_not_found(s.drop_first(), id);
        let u = remove_pending(s, id);
        assert(u[0] == s[0]);
        assert(u.drop_first() =~= remove_pending(s.drop_first(), id));
    }
}

/// Removing an unknown token changes nothing.
pub proof fn lemma_remove_pending_absent(s: Seq<PermissionRequest>, id: Seq<char>)
    requires
        lookup_pending(s, id) is None,
    ensures
        remove_pending(s, id) == s,
    decreases s.len(),
{
    if s.len() > 0 {
        lemma_remove_pending_absent(s.drop_first(), id);
        assert(remove_pending(s, id) =~= s);
    } else {
        assert(remove_pending(s, id) =~= s);
    }
}

/// Remove and return the pending entry under the token: the read-then-delete
/// of decision intake, as one operation.
fn take_pending(pending: &mut Vec<PermissionRequest>, request_id: &String) -> (r: Option<
    PermissionRequest,
>)
    ensures
        final(pending)@ == remove_pending(old(pending)@, request_id@),
        r == lookup_pending(old(pending)@, request_id@),
{
    let ghost s = pending@;
    let mut kept: Vec<PermissionRequest> = Vec::new();
    let mut found: Option<PermissionRequest> = None;
    let n = pending.len();
    let mut i: usize = 0;
    proof {
        assert(s.skip(0) =~= s);
    }
    while i < n
        invariant
            i <= n,
            n == pending@.len(),
            s == pending@,
            remove_pending(s, request_id@) == kept@ + remove_pending(s.skip(i as int), request_id@),
            match found {
                Option::Some(f) => lookup_pending(s, request_id@) == Option::Some(f),
                Option::None => lookup_pending(s, request_id@) == lookup_pending(
                    s.skip(i as int),
                    request_id@,
                ),
            },
        decreases n - i,
    {
        let ghost k0 = kept@;
        proof {
            assert(s.skip(i as int)[0] == s[i as int]);
            assert(s.skip(i as int).drop_first() =~= s.skip(i + 1));
        }
        let row = &pending[i];
        if row.request_id.0 == *request_id {
            if found.is_none() {
                found = Some(row.clone());
            }
        } else {
            kept.push(row.clone());
            proof {
                assert(k0 + (seq![s[i as int]] + remove_pending(s.skip(i + 1), request_id@))
                    =~= kept@ + remove_pending(s.skip(i + 1), request_id@));
            }
        }
        i += 1;
    }
    proof {
        assert(s.skip(n as int) =~= Seq::<PermissionRequest>::empty());
        assert(kept@ + remove_pending(s.skip(n as int), request_id@) =~= kept@);
    }
    *pending = kept;
    found
}

/// Park a pending entry under its token, replacing any entry already parked
/// under the same token.
fn insert_pending(pending: &mut Vec<PermissionRequest>, request: PermissionRequest)
    ensures
        final(pending)@ == remove_pending(old(pending)@, request.request_id.0@).push(request),
{
    let id = request.request_id.0.clone();
    let _ = take_pending(pending, &id);
    pending.push(request);
}

/// The shared-state service behind the inbound operations: the policy
/// engine, the audit logger, and the in-memory pending-request table.  Each
/// operation is one critical section over this state; callers serialize
/// access through mutual exclusion.
pub struct DaemonService {
    policy_engine: PolicyEngine,
    audit_logger: AuditLogger,
    pending_requests: Vec<PermissionRequest>,
}

impl DaemonService {
    /// The policy engine and its store.
    pub closed spec fn engine(&self) -> PolicyEngine {
        self.policy_engine
    }

    /// The audit logger and its store.
    pub closed spec fn logger(&self) -> AuditLogger {
        self.audit_logger
    }

    /// The pending-request table.
    pub closed spec fn pending(&self) -> Seq<PermissionRequest> {
        self.pending_requests@
    }

    /// The policy table.
    pub open spec fn policies(&self) -> Seq<PolicyRow> {
        self.engine().database().policies()
    }

    /// The application table of the policy store.
    pub open spec fn policy_apps(&self) -> Seq<AppRecord> {
        self.engine().database().applications()
    }

    /// The audit log.
    pub open spec fn audit_log(&self) -> Seq<AuditEntry> {
        self.logger().database().audit_log()
    }

    /// The application table of the audit store.
    pub open spec fn audit_apps(&self) -> Seq<AppRecord> {
        self.logger().database().applications()
    }

    /// The configured sensitive path prefixes.
    pub open spec fn prefixes(&self) -> Seq<String> {
        self.engine().prefixes()
    }

    pub open spec fn wf(&self) -> bool {
        self.engine().wf() && self.logger().wf()
    }

    /// A service over the given engine and logger, with no checks in flight.
    pub fn new(policy_engine: PolicyEngine, audit_logger: AuditLogger) -> (r: Self)
        ensures
            r.engine() == policy_engine,
            r.logger() == audit_logger,
            r.pending() == Seq::<PermissionRequest>::empty(),
    {
        DaemonService { policy_engine, audit_logger, pending_requests: Vec::new() }
    }

    /// One permission check, end to end, at time `now`, returning
    /// (prompt required, request token, granted).
    ///
    /// A current cached decision answers immediately — no prompt, an empty
    /// token, the decision's outcome — and is audited as unprompted.  With
    /// no cached decision, a sensitive permission parks the request in the
    /// pending table under a fresh non-empty token and answers (true, token,
    /// false) with no audit entry; anything else is denied by default and
    /// audited as unprompted.
    pub fn request_permission(
        &mut self,
        app_id: AppId,
        pid: u32,
        uid: u32,
        permission: PermissionType,
        now: i64,
    ) -> (r: (bool, String, bool))
        requires
            old(self).wf(),
        ensures
            final(self).wf(),
            final(self).prefixes() == old(self).prefixes(),
            match spec_get_policy(old(self).policies(), app_id.primary@, permission, now) {
                Option::Some(d) => {
                    &&& r.0 == false
                    &&& r.1@ == Seq::<char>::empty()
                    &&& r.2 == decision_grants(d)
                    &&& final(self).policies() == old(self).policies()
                    &&& final(self).policy_apps() == old(self).policy_apps()
                    &&& final(self).pending() == old(self).pending()
                    &&& final(self).audit_log() == old(self).audit_log().push(
                        (AuditEntry {
                            timestamp: now,
                            app_id: app_id.primary,
                            pid,
                            uid,
                            permission: permission,
                            decision: Option::None,
                            granted: decision_grants(d),
                            was_prompted: false,
                        }),
                    )
                    &&& final(self).audit_apps() == upsert_app(
                        old(self).audit_apps(),
                        app_id,
                        now,
                    )
                },
                Option::None => if spec_is_sensitive_with(
                    permission,
                    prefix_views_of(old(self).prefixes()),
                ) {
                    &&& r.0 == true
                    &&& r.1@.len() > 0
                    &&& r.2 == false
                    &&& final(self).policies() == old(self).policies()
                    &&& final(self).policy_apps() == old(self).policy_apps()
                    &&& final(self).audit_log() == old(self).audit_log()
                    &&& final(self).audit_apps() == old(self).audit_apps()
                    &&& final(self).pending() == remove_pending(old(self).pending(), r.1@).push(
                        (PermissionRequest {
                            request_id: (RequestId(r.1)),
                            app_id: app_id,
                            pid,
                            uid,
                            permission: permission,
                            timestamp: now,
                        }),
                    )
                } else {
                    &&& r.0 == false
                    &&& r.1@ == Seq::<char>::empty()
                    &&& r.2 == false
                    &&& final(self).policies() == old(self).policies()
                    &&& final(self).policy_apps() == old(self).policy_apps()
                    &&& final(self).pending() == old(self).pending()
                    &&& final(self).audit_log() == old(self).audit_log().push(
                        (AuditEntry {
                            timestamp: now,
                            app_id: app_id.primary,
                            pid,
                            uid,
                            permission: permission,
                            decision: Option::None,
                            granted: false,
                            was_prompted: false,
                        }),
                    )
                    &&& final(self).audit_apps() == upsert_app(
                        old(self).audit_apps(),
                        app_id,
                        now,
                    )
                },
            },
    {
        let cached = self.policy_engine.get_cached_decision(&app_id, &permission, now);
        if let Some(decision) = cached {
            let granted = grants(&decision);
            self.audit_logger.log_permission_check(
                &app_id,
                &permission,
                granted,
                false,
                pid,
                uid,
                now,
            );
            return (false, String::new(), granted);
        }
        if self.policy_engine.is_sensitive_permission(&permission) {
            let request_id = RequestId::new();
            let request = PermissionRequest {
                request_id: request_id.clone(),
                app_id,
                pid,
                uid,
                permission,
                timestamp: now,
            };
            insert_pending(&mut self.pending_requests, request);
            (true, request_id.0, false)
        } else {
            self.audit_logger.log_permission_check(
                &app_id,
                &permission,
                false,
                false,
                pid,
                uid,
                now,
            );
            (false, String::new(), false)
        }
    }

    /// Resolve a pending check with the submitted decision, at time `now`.
    ///
    /// The pending entry is looked up and removed as one operation, so a
    /// token is honored exactly once: an unknown, already-consumed or
    /// fabricated token fails with `RequestNotFound` and changes nothing.
    /// A decision of a persistent kind is stored before the audit entry is
    /// written; the outcome is audited as prompted and returned.
    pub fn submit_decision(&mut self, request_id: String, decision: PromptDecision, now: i64) -> (r:
        Result<bool, ApfError>)
        requires
            old(self).wf(),
        ensures
            final(self).wf(),
            final(self).prefixes() == old(self).prefixes(),
            match lookup_pending(old(self).pending(), request_id@) {
                Option::None => {
                    &&& r == Result::<bool, ApfError>::Err(ApfError::RequestNotFound(request_id))
                    &&& final(self).pending() == old(self).pending()
                    &&& final(self).policies() == old(self).policies()
                    &&& final(self).policy_apps() == old(self).policy_apps()
                    &&& final(self).audit_log() == old(self).audit_log()
                    &&& final(self).audit_apps() == old(self).audit_apps()
                },
                Option::Some(req) => {
                    &&& r == Result::<bool, ApfError>::Ok(decision_grants(decision))
                    &&& final(self).pending() == remove_pending(old(self).pending(), request_id@)
                    &&& final(self).policies() == if decision_persists(decision) {
                        upsert_policy(
                            old(self).policies(),
                            stored_row(req.app_id, req.permission, decision, now),
                        )
                    } else {
                        old(self).policies()
                    }
                    &&& final(self).policy_apps() == if decision_persists(decision) {
                        upsert_app(old(self).policy_apps(), req.app_id, now)
                    } else {
                        old(self).policy_apps()
                    }
                    &&& final(self).audit_log() == old(self).audit_log().push(
                        (AuditEntry {
                            timestamp: now,
                            app_id: req.app_id.primary,
                            pid: req.pid,
                            uid: req.uid,
                            permission: req.permission,
                            decision: Option::None,
                            granted: decision_grants(decision),
                            was_prompted: true,
                        }),
                    )
                    &&& final(self).audit_apps() == upsert_app(
                        old(self).audit_apps(),
                        req.app_id,
                        now,
                    )
                },
            },
    {
        let req = match take_pending(&mut self.pending_requests, &request_id) {
            Some(req) => req,
            None => {
                proof {
                    lemma_remove_pending_absent(old(self).pending(), request_id@);
                }
                return Err(ApfError::RequestNotFound(request_id));
            },
        };
        if persists(&decision) {
            self.policy_engine.store_decision(&req.app_id, &req.permission, decision, now);
        }
        let granted = grants(&decision);
        self.audit_logger.log_permission_check(
            &req.app_id,
            &req.permission,
            granted,
            true,
            req.pid,
            req.uid,
            now,
        );
        Ok(granted)
    }

    /// Evict every pending request older than `PENDING_TTL_SECS` and say how
    /// many went.  A stale token submitted afterwards fails with
    /// `RequestNotFound` like any other unknown token.  Nothing else changes:
    /// no audit entry records an evicted, never-resolved check.
    pub fn evict_stale_pending(&mut self, now: i64) -> (count: usize)
        ensures
            final(self).pending() == sweep_pending(old(self).pending(), now),
            count == old(self).pending().len() - final(self).pending().len(),
            final(self).engine() == old(self).engine(),
            final(self).logger() == old(self).logger(),
    {
        let ghost s = self.pending_requests@;
        let mut kept: Vec<PermissionRequest> = Vec::new();
        let n = self.pending_requests.len();
        let mut i: usize = 0;
        while i < n
            invariant
                i <= n,
                n == self.pending_requests@.len(),
                s == self.pending_requests@,
                kept@ == sweep_pending(s.take(i as int), now),
                kept@.len() <= i,
                self.policy_engine == old(self).engine(),
                self.audit_logger == old(self).logger(),
            decreases n - i,
        {
            let row = &self.pending_requests[i];
            let stale = (row.timestamp as i128) + (PENDING_TTL_SECS as i128) < (now as i128);
            if !stale {
                kept.push(row.clone());
            }
            proof {
                assert(s.take(i + 1).drop_last() =~= s.take(i as int));
                assert(s.take(i + 1).last() == s[i as int]);
            }
            i += 1;
        }
        proof {
            assert(s.take(n as int) =~= s);
        }
        let count = n - kept.len();
        self.pending_requests = kept;
        count
    }

    /// All current decisions recorded for the application.
    pub fn get_app_policy(&self, app_id: &AppId, now: i64) -> (r: Vec<
        (PermissionType, PromptDecision),
    >)
        ensures
            r@ == app_policies_at(self.policies(), app_id.primary@, now),
    {
        self.policy_engine.get_app_policy(app_id, now)
    }

    /// Store every (permission, decision) pair of the list for the
    /// application.  The collaborator invoking this must have authorized the
    /// caller for policy modification beforehand.
    pub fn update_app_policy(
        &mut self,
        app_id: &AppId,
        policies: Vec<(PermissionType, PromptDecision)>,
        now: i64,
    )
        requires
            old(self).wf(),
        ensures
            final(self).wf(),
            final(self).prefixes() == old(self).prefixes(),
            final(self).policies() == upsert_all(old(self).policies(), *app_id, policies@, now),
            final(self).policy_apps() == if policies@.len() == 0 {
                old(self).policy_apps()
            } else {
                upsert_app(old(self).policy_apps(), *app_id, now)
            },
            final(self).pending() == old(self).pending(),
            final(self).audit_log() == old(self).audit_log(),
            final(self).audit_apps() == old(self).audit_apps(),
    {
        self.policy_engine.update_app_policy(app_id, policies, now);
    }

    /// The most recent `limit` audit entries, newest first.
    pub fn get_audit_log(&self, limit: usize) -> (r: Vec<AuditEntryView>)
        ensures
            r@.len() == recent_audit(self.audit_log(), limit as int).len(),
            forall|i: int|
                0 <= i < r@.len() ==> r@[i] == entry_view(
                    #[trigger] recent_audit(self.audit_log(), limit as int)[i],
                ),
    {
        self.audit_logger.get_recent_entries(limit)
    }

    /// Liveness probe.
    pub fn ping(&self) -> (r: String)
        ensures
            r@ == "pong"@,
    {
        String::from_str("pong")
    }
}

} // verus!
