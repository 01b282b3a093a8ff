//! The audit logger.
//!
//! Wraps the store for the write side of audit entries plus a read-only view
//! of the most recent entries.  Every permission check that reaches a
//! decision — cached hit, default deny, or prompt — is recorded exactly once;
//! the log is append-only and nothing here ever mutates or deletes an entry.

use vstd::prelude::*;

use crate::app_id::AppId;
use crate::database::AuditEntry;
use crate::database::Database;
use crate::database::recent_audit;
use crate::database::upsert_app;
use crate::types::PermissionType;
use crate::types::PromptDecision;

verus! {

/// A read-only rendering of one audit entry.
#[derive(Debug)]
pub struct AuditEntryView {
    pub timestamp: i64,
    pub app_id: String,
    pub pid: u32,
    pub uid: u32,
    pub permission: PermissionType,
    pub decision: Option<PromptDecision>,
    pub granted: bool,
    pub was_prompted: bool,
}

/// The view of a stored audit entry: the same fields, read-only.
pub open spec fn entry_view(e: AuditEntry) -> AuditEntryView {
    AuditEntryView {
        timestamp: e.timestamp,
        app_id: e.app_id,
        pid: e.pid,
        uid: e.uid,
        permission: e.permission,
        decision: e.decision,
        granted: e.granted,
        was_prompted: e.was_prompted,
    }
}

/// Timestamps never decrease along the log: the case when every entry was
/// appended with a clock reading at least as late as the one before it.
pub open spec fn log_times_nondecreasing(s: Seq<AuditEntry>) -> bool {
    forall|i: int, j: int| 0 <= i <= j < s.len() ==> s[i].timestamp <= s[j].timestamp
}

/// On a log whose timestamps never decrease, the recent-entries view is
/// ordered by timestamp descending: most recent first, the documented
/// read-side order.
pub proof fn lemma_recent_entries_newest_first(s: Seq<AuditEntry>, limit: int)
    requires
        log_times_nondecreasing(s),
    ensures
        forall|i: int, j: int|
            0 <= i <= j < recent_audit(s, limit).len() ==> recent_audit(s, limit)[i].timestamp
                >= recent_audit(s, limit)[j].timestamp,
{
    let r = recent_audit(s, limit);
    assert forall|i: int, j: int| 0 <= i <= j < r.len() implies r[i].timestamp
        >= r[j].timestamp by {
        assert(s[s.len() - 1 - j].timestamp <= s[s.len() - 1 - i].timestamp);
    }
}

/// Records permission-check outcomes in the store and serves the recent
/// view.
pub struct AuditLogger {
    db: Database,
}

impl AuditLogger {
    /// The store the logger writes to.
    pub closed spec fn database(&self) -> Database {
        self.db
    }

    pub open spec fn wf(&self) -> bool {
        self.database().wf()
    }

    /// A logger over `db`.
    pub fn new(db: Database) -> (r: Self)
        ensures
            r.database() == db,
    {
        AuditLogger { db }
    }

    /// Record one resolved permission check: who asked, for what, whether it
    /// was granted, and whether a human was prompted.  Appends exactly one
    /// entry, with no decision payload, and registers the application as the
    /// entry's referential parent; the policy table is untouched.
    pub fn log_permission_check(
        &mut self,
        app_id: &AppId,
        permission: &PermissionType,
        granted: bool,
        was_prompted: bool,
        pid: u32,
        uid: u32,
        now: i64,
    )
        requires
            old(self).wf(),
        ensures
            final(self).wf(),
            final(self).database().audit_log() == old(self).database().audit_log().push(
                (AuditEntry {
                    timestamp: now,
                    app_id: app_id.primary,
                    pid,
                    uid,
                    permission: *permission,
                    decision: Option::None,
                    granted,
                    was_prompted,
                }),
            ),
            final(self).database().applications() == upsert_app(
                old(self).database().applications(),
                *app_id,
                now,
            ),
            final(self).database().policies() == old(self).database().policies(),
    {
        self.db.log_audit(app_id, pid, uid, permission, None, granted, was_prompted, now);
    }

    /// The most recent `limit` audit entries, newest first.
    pub fn get_recent_entries(&self, limit: usize) -> (r: Vec<AuditEntryView>)
        ensures
            r@.len() == recent_audit(self.database().audit_log(), limit as int).len(),
            forall|i: int|
                0 <= i < r@.len() ==> r@[i] == entry_view(
                    #[trigger] recent_audit(self.database().audit_log(), limit as int)[i],
                ),
    {
        let entries = self.db.get_audit_entries(limit);
        let mut views: Vec<AuditEntryView> = Vec::new();
        let n = entries.len();
        let mut i: usize = 0;
        while i < n
            invariant
                i <= n,
                n == entries@.len(),
                entries@ == recent_audit(self.database().audit_log(), limit as int),
                views@.len() == i,
                forall|t: int| 0 <= t < i ==> views@[t] == entry_view(#[trigger] entries@[t]),
            decreases n - i,
        {
            let e = &entries[i];
            views.push(
                AuditEntryView {
                    timestamp: e.timestamp,
                    app_id: e.app_id.clone(),
                    pid: e.pid,
                    uid: e.uid,
                    permission: e.permission.clone(),
                    decision: e.decision,
                    granted: e.granted,
                    was_prompted: e.was_prompted,
                },
            );
            i += 1;
        }
        views
    }
}

} // verus!
